//! The settings of a service, each with the value it has when nothing sets
//! it.

use vstd::prelude::*;

verus! {

/// All the settings.
#[derive(Debug)]
pub struct Conf {
    pub db: Db,
    pub mode: Mode,
    pub server: Server,
    pub log: Log,
    pub background: Background,
}

/// How the service runs.
#[derive(Debug)]
pub struct Mode {
    pub debug: bool,
}

/// Where the service listens.
#[derive(Debug)]
pub struct Server {
    pub external_url: String,
    pub http_port: u16,
    pub grpc_port: u16,
    pub healthz_port: u16,
    pub metrics_port: u16,
}

/// The databases.
#[derive(Debug)]
pub struct Db {
    pub mysql: Mysql,
}

/// The MySQL database.
#[derive(Debug)]
pub struct Mysql {
    pub host: String,
    pub port: u16,
    pub dating: String,
    pub user: String,
    pub pass: String,
    pub connections: Connections,
}

/// The limits of the connection pool.
#[derive(Debug)]
pub struct Connections {
    pub max_idle: usize,
    pub max_open: usize,
}

/// The logs.
#[derive(Debug)]
pub struct Log {
    pub app: App,
}

/// The log of the application.
#[derive(Debug)]
pub struct App {
    pub level: String,
}

/// The background jobs.
#[derive(Debug)]
pub struct Background {
    pub watchdog: Watchdog,
}

/// The watchdog job.
#[derive(Debug)]
pub struct Watchdog {
    pub period: String,
    pub limit: usize,
    pub lock_timeout: String,
}

impl Mode {
    /// Whether these are the settings that nothing has set.
    pub open spec fn is_default(&self) -> bool {
        !self.debug
    }
}

impl Default for Mode {
    fn default() -> (r: Self)
        ensures
            r.is_default(),
    {
        Mode { debug: false }
    }
}

impl Server {
    /// Whether these are the settings that nothing has set.
    pub open spec fn is_default(&self) -> bool {
        &&& self.external_url@ == "http://127.0.0.1"@
        &&& self.http_port == 8801
        &&& self.grpc_port == 8802
        &&& self.healthz_port == 10025
        &&& self.metrics_port == 9199
    }
}

impl Default for Server {
    fn default() -> (r: Self)
        ensures
            r.is_default(),
    {
        Server {
            external_url: "http://127.0.0.1".to_owned(),
            http_port: 8801,
            grpc_port: 8802,
            healthz_port: 10025,
            metrics_port: 9199,
        }
    }
}

impl Connections {
    /// Whether these are the settings that nothing has set.
    pub open spec fn is_default(&self) -> bool {
        &&& self.max_idle == 30
        &&& self.max_open == 30
    }
}

impl Default for Connections {
    fn default() -> (r: Self)
        ensures
            r.is_default(),
    {
        Connections { max_idle: 30, max_open: 30 }
    }
}

impl Mysql {
    /// Whether these are the settings that nothing has set.
    pub open spec fn is_default(&self) -> bool {
        &&& self.host@ == "http://127.0.0.1"@
        &&& self.port == 3306
        &&& self.dating@ == "default"@
        &&& self.user@ == "root"@
        &&& self.pass@ == ""@
        &&& self.connections.is_default()
    }
}

impl Default for Mysql {
    fn default() -> (r: Self)
        ensures
            r.is_default(),
    {
        Mysql {
            host: "http://127.0.0.1".to_owned(),
            port: 3306,
            dating: "default".to_owned(),
            user: "root".to_owned(),
            pass: "".to_owned(),
            connections: Connections::default(),
        }
    }
}

impl Db {
    /// Whether these are the settings that nothing has set.
    pub open spec fn is_default(&self) -> bool {
        self.mysql.is_default()
    }
}

impl Default for Db {
    fn default() -> (r: Self)
        ensures
            r.is_default(),
    {
        Db { mysql: Mysql::default() }
    }
}

impl App {
    /// Whether these are the settings that nothing has set.
    pub open spec fn is_default(&self) -> bool {
        self.level@ == "info"@
    }
}

impl Default for App {
    fn default() -> (r: Self)
        ensures
            r.is_default(),
    {
        App { level: "info".to_owned() }
    }
}

impl Log {
    /// Whether these are the settings that nothing has set.
    pub open spec fn is_default(&self) -> bool {
        self.app.is_default()
    }
}

impl Default for Log {
    fn default() -> (r: Self)
        ensures
            r.is_default(),
    {
        Log { app: App::default() }
    }
}

impl Watchdog {
    /// Whether these are the settings that nothing has set.
    pub open spec fn is_default(&self) -> bool {
        &&& self.period@ == "5s"@
        &&& self.limit == 10
        &&& self.lock_timeout@ == "4s"@
    }
}

impl Default for Watchdog {
    fn default() -> (r: Self)
        ensures
            r.is_default(),
    {
        Watchdog { period: "5s".to_owned(), limit: 10, lock_timeout: "4s".to_owned() }
    }
}

impl Background {
    /// Whether these are the settings that nothing has set.
    pub open spec fn is_default(&self) -> bool {
        self.watchdog.is_default()
    }
}

impl Default for Background {
    fn default() -> (r: Self)
        ensures
            r.is_default(),
    {
        Background { watchdog: Watchdog::default() }
    }
}

impl Conf {
    /// Whether these are the settings that nothing has set.
    pub open spec fn is_default(&self) -> bool {
        &&& self.db.is_default()
        &&& self.mode.is_default()
        &&& self.server.is_default()
        &&& self.log.is_default()
        &&& self.background.is_default()
    }
}

impl Default for Conf {
    fn default() -> (r: Self)
        ensures
            r.is_default(),
    {
        Conf {
            db: Db::default(),
            mode: Mode::default(),
            server: Server::default(),
            log: Log::default(),
            background: Background::default(),
        }
    }
}

} // verus!
