use vtt_baxum::character::Sheet;
use vtt_baxum::chat::User;

#[test]
fn set_name_trims() {
    let mut sheet = Sheet::new("Test", User::new_user("Joao"), (3, 3));
    sheet.set_name("  Arthur Dent \n");
    assert_eq!(sheet.get_name(), "Arthur Dent");
    assert_eq!(sheet.get_owner().get_username(), "Joao");
}

#[test]
fn fatepoint_arithmetic() {
    let mut sheet = Sheet::new("Test", User::new_user("Joao"), (3, 3));
    sheet.add_fatepoints(2);
    assert_eq!(sheet.get_fatepoints(), (5, 3));
    sheet.add_fatepoints(-4);
    assert_eq!(sheet.get_fatepoints(), (1, 3));
    sheet.set_fatepoints(7);
    assert_eq!(sheet.get_fatepoints(), (7, 3));
    sheet.reset_fatepoint();
    assert_eq!(sheet.get_fatepoints(), (3, 3));
}

#[test]
fn chained_fatepoint_updates() {
    let mut sheet = Sheet::new("Test", User::new_user("Joao"), (0, 2));
    sheet.add_fatepoints(1).add_fatepoints(1).add_fatepoints(1);
    assert_eq!(sheet.get_fatepoints().0, 3);
}

#[test]
fn ownership_requires_a_name() {
    let named = Sheet::new("Test", User::new_user("Joao"), (3, 3));
    assert!(named.owner_is_valid());
    let unnamed = Sheet::new("Test", User::new_user("   "), (3, 3));
    assert!(!unnamed.owner_is_valid());
}
