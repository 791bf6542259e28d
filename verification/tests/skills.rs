use vtt_baxum::character::skills::Skills;

#[test]
fn add_skill() {
    let mut skill = Skills::default();
    assert!(skill.has_skill("Shoot"));
    skill.add_skill("Swordsmanship");
    assert!(skill.has_skill("Swordsmanship"));
}

#[test]
#[should_panic]
fn delete_skill() {
    let mut skill = Skills::default();
    assert!(skill.has_skill("Shoot"));
    skill.add_skill("Swordsmanship").remove_skill("Swordsmanship");
    assert!(skill.has_skill("Swordsmanship"));
}

//Test that should fail
#[test]
#[should_panic]
fn increment_skill_fail() {
    let mut skill = Skills::default();
    skill.increment_skill("Swordsmanship");
    assert!(skill.has_skill("Swordsmanship"));
}

#[test]
fn increment_skill() {
    let mut skill = Skills::default();
    skill.add_skill("Swordsmanship").increment_skill("Swordsmanship");
    assert!(skill.has_skill("Swordsmanship"));
}

#[test]
fn increment_two_times() {
    let mut skill = Skills::default();
    skill.increment_skill("Shoot").increment_skill("Shoot");
    assert_eq!(skill.get_skill("Shoot"), 2);
}

#[test]
fn get_skill_value() {
    let mut skill = Skills::default();
    skill.add_skill("Shoot").increment_skill("Shoot");
    assert_eq!(skill.get_skill("Shoot"), 1);
}

#[test]
fn add_skill_resets_rating() {
    let mut skill = Skills::default();
    skill.increment_skill("Lore");
    assert_eq!(skill.get_skill("Lore"), 1);
    skill.add_skill("Lore");
    assert_eq!(skill.get_skill("Lore"), 0);
}

#[test]
fn default_has_all_stock_skills() {
    let skill = Skills::default();
    for name in [
        "Talent",
        "Burglary",
        "Athletics",
        "Contacts",
        "Crafts",
        "Deceive",
        "Drive",
        "Empathy",
        "Fight",
        "Investigation",
        "Lore",
        "Perception",
        "Physique",
        "Provoke",
        "Rapport",
        "Resources",
        "Shoot",
        "Stealth",
        "Will",
        "Calculus",
        "Scouting",
        "Quick",
        "Careful",
        "Performance",
        "Survival",
        "Arcana",
    ] {
        assert!(skill.has_skill(name));
        assert_eq!(skill.get_skill(name), 0);
    }
    assert!(!skill.has_skill("Swordsmanship"));
}

#[test]
fn remove_missing_skill_is_noop() {
    let mut skill = Skills::default();
    skill.remove_skill("Swordsmanship");
    assert!(skill.has_skill("Shoot"));
}
