use idioms::matrix::{fast_sum, fill, RNG_N_LIMIT};
use idioms::models::Role;
use idioms::polyline::Polyline;

#[test]
fn sum_of_a_matrix() {
    let mut m = [[0u32; 64]; 64];
    assert_eq!(fast_sum(&m), 0);
    m[0][0] = 1;
    m[63][63] = 2;
    m[10][20] = 300;
    assert_eq!(fast_sum(&m), 303);
    assert_eq!(fast_sum(&[[1u32; 64]; 64]), 4096);
    assert_eq!(fast_sum(&[[499u32; 64]; 64]), 2_043_904);
}

#[test]
fn sum_up_to_the_largest_number() {
    let mut m = [[0u32; 64]; 64];
    m[5][5] = u32::MAX - 7;
    m[6][0] = 7;
    assert_eq!(fast_sum(&m), u32::MAX);
}

#[test]
fn fill_writes_small_numbers_everywhere() {
    let mut m = [[u32::MAX; 64]; 64];
    fill(&mut m);
    assert!(m.iter().flatten().all(|e| *e < RNG_N_LIMIT));
    assert!(fast_sum(&m) <= 64 * 64 * 499);
    let first = m;
    fill(&mut m);
    assert_ne!(first, m);
}

#[test]
fn a_role_is_permitted_seven_at_most() {
    assert_eq!(Role::new("admin".into(), None, 0).perms, 0);
    assert_eq!(Role::new("admin".into(), None, 5).perms, 5);
    assert_eq!(Role::new("admin".into(), None, 7).perms, 7);
    assert_eq!(Role::new("admin".into(), None, 8).perms, 7);
    assert_eq!(Role::new("admin".into(), None, 255).perms, 7);
    let role = Role::new("admin/users".into(), Some("may edit users".into()), 6);
    assert_eq!(role.slug, "admin/users");
    assert_eq!(role.description.as_deref(), Some("may edit users"));
}

#[test]
fn a_line_has_two_points_or_more() {
    assert_eq!(Polyline::try_from(Vec::<u8>::new()).err(), Some("must have at least 2 points"));
    assert_eq!(Polyline::try_from(vec![1]).err(), Some("must have at least 2 points"));
    assert_eq!(Polyline::try_from(vec![1, 2]).unwrap().points(), &vec![1, 2]);
    assert_eq!(Polyline::try_from(vec![1, 2, 3]).unwrap().points(), &vec![1, 2, 3]);
}

#[test]
fn a_line_goes_through_its_points_in_order() {
    assert_eq!(Polyline::new('a', 'b', &[]).points(), &vec!['a', 'b']);
    assert_eq!(Polyline::new('a', 'b', &['c', 'd']).points(), &vec!['a', 'b', 'c', 'd']);
    assert_eq!(Polyline::from_array([(0, 1), (1, 0)]).points(), &vec![(0, 1), (1, 0)]);
    assert_eq!(Polyline::from_array([7, 8, 9]).points(), &vec![7, 8, 9]);
}
