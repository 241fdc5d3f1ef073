use mud_server::character::{
    character_stored, confirms, draw_share, get_weightings, initialize_attr, initialize_attr_with_bias,
    initialize_info, print_hashmap, save_character, update_attr, update_info, update_multi,
    CharCreator, Character, CreationState,
};
use mud_server::dict::Dict;
use mud_server::messages::character as prompts;

fn entries_of(d: &Dict<i32>) -> Vec<(String, i32)> {
    let mut out = Vec::new();
    for i in 0..d.len() {
        out.push((d.key_at(i).clone(), *d.value_at(i)));
    }
    out
}

fn texts_of(d: &Dict<String>) -> Vec<(String, String)> {
    let mut out = Vec::new();
    for i in 0..d.len() {
        out.push((d.key_at(i).clone(), d.value_at(i).clone()));
    }
    out
}

fn pairs(list: &[(&str, i32)]) -> Vec<(String, i32)> {
    list.iter().map(|(k, v)| (k.to_string(), *v)).collect()
}

fn text_pairs(list: &[(&str, &str)]) -> Vec<(String, String)> {
    list.iter().map(|(k, v)| (k.to_string(), v.to_string())).collect()
}

fn creator_at(state: CreationState) -> CharCreator {
    let mut info = initialize_info();
    info.insert("race".to_string(), "1".to_string());
    let character = Character::new_from_data("alice".to_string(), info, initialize_attr());
    CharCreator::new_from_data("alice".to_string(), character, state, "old".to_string())
}

#[test]
fn character_new_is_empty() {
    let c = Character::new();
    assert_eq!(c.username, "");
    assert_eq!(c.info.len(), 0);
    assert_eq!(c.attr.len(), 0);
    assert!(c.items.is_empty() && c.equips.is_empty() && c.skills.is_empty() && c.history.is_empty());
}

#[test]
fn character_new_from_data_keeps_what_it_is_given() {
    let c = Character::new_from_data("bob".to_string(), initialize_info(), initialize_attr());
    assert_eq!(c.username, "bob");
    assert_eq!(c.info.len(), 5);
    assert_eq!(c.attr.len(), 6);
    assert!(c.items.is_empty() && c.equips.is_empty() && c.skills.is_empty() && c.history.is_empty());
}

#[test]
fn initial_info_has_the_five_keys_with_empty_text() {
    assert_eq!(
        texts_of(&initialize_info()),
        text_pairs(&[("name", ""), ("race", ""), ("personality", ""), ("description", ""), ("look", "")])
    );
}

#[test]
fn initial_attributes() {
    assert_eq!(
        entries_of(&initialize_attr()),
        pairs(&[
            ("hp", 10),
            ("stamina", 10),
            ("mana", 10),
            ("agility", 3),
            ("strength", 3),
            ("magic", 3),
        ])
    );
}

#[test]
fn update_info_trims_and_update_attr_sets() {
    let mut info = initialize_info();
    update_info(&mut info, "race".to_string(), "  3 \r\n".to_string());
    update_info(&mut info, "gender".to_string(), "m\n".to_string());
    assert_eq!(info.get("race"), Some(&"3".to_string()));
    assert_eq!(info.len(), 6);
    assert_eq!(info.key_at(5), "gender");
    assert_eq!(info.value_at(5), "m");
    let mut attr = initialize_attr();
    update_attr(&mut attr, "hp".to_string(), 42);
    update_attr(&mut attr, "luck".to_string(), -1);
    assert_eq!(attr.get("hp"), Some(&42));
    assert_eq!(attr.position("hp"), Some(0));
    assert_eq!(attr.get("luck"), Some(&-1));
    assert_eq!(attr.len(), 7);
}

#[test]
fn update_multi_copies_every_entry() {
    let mut info = initialize_info();
    let mut data: Dict<String> = Dict::new();
    data.insert("look".to_string(), " tall ".to_string());
    data.insert("title".to_string(), "sir".to_string());
    data.insert("name".to_string(), "Al".to_string());
    update_multi(&mut info, data);
    assert_eq!(
        texts_of(&info),
        text_pairs(&[
            ("name", "Al"),
            ("race", ""),
            ("personality", ""),
            ("description", ""),
            ("look", " tall "),
            ("title", "sir"),
        ])
    );
}

#[test]
fn weightings_of_each_race() {
    assert_eq!(entries_of(&get_weightings(1)), pairs(&[("str", 5), ("agi", 2), ("int", 3), ("charm", 3)]));
    assert_eq!(entries_of(&get_weightings(2)), pairs(&[("str", 3), ("agi", 5), ("int", 3), ("charm", 2)]));
    assert_eq!(entries_of(&get_weightings(3)), pairs(&[("str", 2), ("agi", 2), ("int", 4), ("charm", 5)]));
    assert_eq!(entries_of(&get_weightings(4)), pairs(&[("str", 3), ("agi", 3), ("int", 3), ("charm", 3)]));
    assert_eq!(get_weightings(0).len(), 0);
    assert_eq!(get_weightings(5).len(), 0);
    assert_eq!(get_weightings(-1).len(), 0);
}

#[test]
fn generated_attributes_are_the_weights_whatever_the_budget() {
    for budget in [15, 0, 1, -7, 1000, i32::MAX, i32::MIN] {
        for race in 1..=4 {
            let attrs = initialize_attr_with_bias(budget, get_weightings(race));
            assert_eq!(entries_of(&attrs), entries_of(&get_weightings(race)));
            for i in 0..attrs.len() {
                assert!(*attrs.value_at(i) >= 0);
            }
        }
    }
    assert_eq!(initialize_attr_with_bias(15, Dict::new()).len(), 0);
    let mut odd: Dict<i32> = Dict::new();
    odd.insert("x".to_string(), i32::MAX);
    odd.insert("y".to_string(), i32::MIN);
    assert_eq!(
        entries_of(&initialize_attr_with_bias(i32::MIN, odd)),
        pairs(&[("x", i32::MAX), ("y", i32::MIN)])
    );
}

#[test]
fn a_share_is_drawn_from_two_up_to_the_average() {
    let mut seen = [false; 10];
    for _ in 0..2000 {
        let d = draw_share(10);
        assert!(2 <= d && d < 10);
        seen[d as usize] = true;
    }
    assert!(seen[2..10].iter().all(|s| *s));
    assert_eq!(draw_share(3), 2);
    assert_eq!(draw_share(2), 2);
    assert_eq!(draw_share(0), 2);
    assert_eq!(draw_share(i32::MIN), 2);
}

#[test]
fn input_is_read_as_a_number_in_a_range() {
    assert_eq!(CharCreator::is_input_valid(1, 4, "3".to_string()), 3);
    assert_eq!(CharCreator::is_input_valid(1, 4, " 1 \r\n".to_string()), 1);
    assert_eq!(CharCreator::is_input_valid(1, 4, "4".to_string()), 4);
    assert_eq!(CharCreator::is_input_valid(1, 4, "5".to_string()), 0);
    assert_eq!(CharCreator::is_input_valid(1, 4, "0".to_string()), 0);
    assert_eq!(CharCreator::is_input_valid(0, 4, "0".to_string()), 0);
    assert_eq!(CharCreator::is_input_valid(1, 4, "-2".to_string()), 0);
    assert_eq!(CharCreator::is_input_valid(1, 4, "two".to_string()), 0);
    assert_eq!(CharCreator::is_input_valid(1, 4, "".to_string()), 0);
    assert_eq!(CharCreator::is_input_valid(1, 4, "99999999999".to_string()), 0);
    assert_eq!(CharCreator::is_input_valid(-5, 5, "two".to_string()), -1);
    assert_eq!(CharCreator::is_input_valid(-5, 5, "-3".to_string()), -3);
}

#[test]
fn input_is_checked_against_a_list_of_choices() {
    assert!(CharCreator::is_string_valid("m:f:u".to_string(), "m".to_string()));
    assert!(CharCreator::is_string_valid("m:f:u".to_string(), " f \r\n".to_string()));
    assert!(CharCreator::is_string_valid("m:f:u".to_string(), "u".to_string()));
    assert!(!CharCreator::is_string_valid("m:f:u".to_string(), "x".to_string()));
    assert!(!CharCreator::is_string_valid("m:f:u".to_string(), "M".to_string()));
    assert!(!CharCreator::is_string_valid("m:f:u".to_string(), "".to_string()));
    assert!(!CharCreator::is_string_valid("m:f:u".to_string(), "m:f".to_string()));
    assert!(CharCreator::is_string_valid("a::b".to_string(), "".to_string()));
}

#[test]
fn confirmation_is_y_or_yes() {
    assert!(confirms("y"));
    assert!(confirms(" yes\r\n"));
    assert!(!confirms("Y"));
    assert!(!confirms("no"));
    assert!(!confirms(""));
}

#[test]
fn a_description_is_rendered_line_by_line() {
    let mut info: Dict<String> = Dict::new();
    info.insert("name".to_string(), "Al".to_string());
    info.insert("race".to_string(), "".to_string());
    assert_eq!(
        print_hashmap(info),
        vec!["----Printing hash:---", "[name]:Al---", "[race]:---"]
    );
    assert_eq!(print_hashmap(Dict::new()), vec!["----Printing hash:---"]);
}

#[test]
fn creator_new_is_about_to_ask_for_the_race() {
    let c = CharCreator::new();
    assert_eq!(c.state, CreationState::Race);
    assert_eq!(c.username, "");
    assert_eq!(c.return_msg, "");
    assert_eq!(c.character.info.len(), 0);
    assert_eq!(c.character.attr.len(), 0);
}

#[test]
fn new_asks_for_the_race() {
    let c = CharCreator::process_commands("ignored".to_string(), creator_at(CreationState::New), true);
    assert_eq!(c.state, CreationState::Race);
    assert_eq!(c.return_msg, prompts::RACESELECTION);
    assert_eq!(c.username, "alice");
    assert_eq!(c.character.username, "alice");
    assert_eq!(c.character.info.get("race"), Some(&"1".to_string()));
}

#[test]
fn race_records_a_valid_choice() {
    for (line, race) in [("1", "1"), (" 2\r\n", "2"), ("3", "3"), ("4", "4"), ("+4", "4")] {
        let mut start = creator_at(CreationState::Race);
        start.character.info.insert("gender".to_string(), "m".to_string());
        start.character.attr.insert("hp".to_string(), 99);
        let c = CharCreator::process_commands(line.to_string(), start, true);
        assert_eq!(c.state, CreationState::Gender);
        assert_eq!(c.return_msg, prompts::GENDERSELECTION);
        assert_eq!(
            texts_of(&c.character.info),
            text_pairs(&[("name", ""), ("race", race), ("personality", ""), ("description", ""), ("look", "")])
        );
        assert_eq!(entries_of(&c.character.attr), entries_of(&initialize_attr()));
    }
}

#[test]
fn race_asks_again_on_anything_else() {
    for line in ["0", "5", "-1", "human", "", "1.5", "1 2"] {
        let c = CharCreator::process_commands(line.to_string(), creator_at(CreationState::Race), true);
        assert_eq!(c.state, CreationState::Race);
        assert_eq!(c.return_msg, prompts::RACESELECTION);
        assert_eq!(texts_of(&c.character.info), texts_of(&initialize_info()));
        assert_eq!(entries_of(&c.character.attr), entries_of(&initialize_attr()));
        let again = CharCreator::process_commands("9".to_string(), c, true);
        assert_eq!(again.state, CreationState::Race);
        assert_eq!(again.return_msg, prompts::RACESELECTION);
        assert_eq!(texts_of(&again.character.info), texts_of(&initialize_info()));
        assert_eq!(entries_of(&again.character.attr), entries_of(&initialize_attr()));
    }
}

#[test]
fn gender_records_m_f_or_u() {
    for line in ["m", "f", " u\r\n"] {
        let c = CharCreator::process_commands(line.to_string(), creator_at(CreationState::Gender), true);
        assert_eq!(c.state, CreationState::Type);
        assert_eq!(c.return_msg, prompts::TYPESELECTION);
        assert_eq!(c.character.info.get("gender"), Some(&line.trim().to_string()));
        assert_eq!(c.character.info.get("race"), Some(&"1".to_string()));
    }
    for line in ["x", "M", "", "mf", "male"] {
        let c = CharCreator::process_commands(line.to_string(), creator_at(CreationState::Gender), true);
        assert_eq!(c.state, CreationState::Gender);
        assert_eq!(c.return_msg, prompts::GENDERSELECTION);
        assert!(c.character.info.get("gender").is_none());
    }
}

#[test]
fn type_generates_the_attributes_of_the_race() {
    let c = CharCreator::process_commands("2\r\n".to_string(), creator_at(CreationState::Type), true);
    assert_eq!(c.state, CreationState::Selection);
    assert_eq!(
        c.return_msg,
        "Are you satisfied with the following attributes?\r\n\nstr:5agi:2int:3charm:3"
    );
    assert_eq!(c.character.info.get("type"), Some(&"2".to_string()));
    assert_eq!(entries_of(&c.character.attr), pairs(&[("str", 5), ("agi", 2), ("int", 3), ("charm", 3)]));

    let mut dwarf = creator_at(CreationState::Type);
    dwarf.character.info.insert("race".to_string(), "3".to_string());
    let c = CharCreator::process_commands("1".to_string(), dwarf, true);
    assert_eq!(entries_of(&c.character.attr), pairs(&[("str", 2), ("agi", 2), ("int", 4), ("charm", 5)]));
    assert_eq!(
        c.return_msg,
        "Are you satisfied with the following attributes?\r\n\nstr:2agi:2int:4charm:5"
    );
}

#[test]
fn type_asks_again_on_anything_else() {
    for line in ["0", "5", "-3", "smart", ""] {
        let c = CharCreator::process_commands(line.to_string(), creator_at(CreationState::Type), true);
        assert_eq!(c.state, CreationState::Type);
        assert_eq!(c.return_msg, prompts::TYPESELECTION);
        assert!(c.character.info.get("type").is_none());
        assert_eq!(entries_of(&c.character.attr), entries_of(&initialize_attr()));
        let before = texts_of(&c.character.info);
        let again = CharCreator::process_commands("7".to_string(), c, true);
        assert_eq!(again.state, CreationState::Type);
        assert_eq!(again.return_msg, prompts::TYPESELECTION);
        assert_eq!(texts_of(&again.character.info), before);
        assert_eq!(entries_of(&again.character.attr), entries_of(&initialize_attr()));
    }
}

#[test]
fn selection_finishes_on_yes_once_the_character_is_stored() {
    let c = CharCreator::process_commands("yes\r\n".to_string(), creator_at(CreationState::Selection), true);
    assert_eq!(c.state, CreationState::Done);
    assert_eq!(c.return_msg, prompts::SUCCESS);
    assert_eq!(c.character.info.get("race"), Some(&"1".to_string()));
    assert_eq!(entries_of(&c.character.attr), entries_of(&initialize_attr()));
}

#[test]
fn a_confirmed_character_asks_to_be_stored() {
    let data = creator_at(CreationState::Selection);
    assert!(CharCreator::character_to_store("no", &data).is_none());
    assert!(CharCreator::character_to_store("", &data).is_none());
    for state in [
        CreationState::New,
        CreationState::Race,
        CreationState::Gender,
        CreationState::Type,
        CreationState::Done,
    ] {
        assert!(CharCreator::character_to_store("yes", &creator_at(state)).is_none());
    }
    let request = CharCreator::character_to_store(" yes\r\n", &data).expect("a record to store");
    assert_eq!(request.table, "player_char_info");
    assert_eq!(request.key, "alice");
    let columns: Vec<(String, String)> =
        request.data.iter().map(|c| (c.name.clone(), c.value.clone())).collect();
    assert_eq!(
        columns,
        text_pairs(&[
            ("name", ""),
            ("race", "1"),
            ("personality", ""),
            ("description", ""),
            ("look", ""),
            ("hp", "10"),
            ("stamina", "10"),
            ("mana", "10"),
            ("agility", "3"),
            ("strength", "3"),
            ("magic", "3"),
        ])
    );
}

#[test]
fn a_stored_character_is_done() {
    let c = character_stored(creator_at(CreationState::Selection), true);
    assert_eq!(c.state, CreationState::Done);
    assert_eq!(c.return_msg, prompts::SUCCESS);
    assert_eq!(c.username, "alice");
    assert_eq!(c.character.username, "alice");
    assert_eq!(c.character.info.get("race"), Some(&"1".to_string()));
    assert_eq!(entries_of(&c.character.attr), entries_of(&initialize_attr()));
}

#[test]
fn a_failed_store_is_reported_and_the_character_is_not_done() {
    let c = CharCreator::process_commands("y".to_string(), creator_at(CreationState::Selection), false);
    assert_eq!(c.state, CreationState::Selection);
    assert_ne!(c.state, CreationState::Done);
    assert_eq!(c.return_msg, prompts::SAVE_FAILED);
    assert_ne!(c.return_msg, prompts::SUCCESS);
    assert_eq!(c.character.info.get("race"), Some(&"1".to_string()));
    assert_eq!(entries_of(&c.character.attr), entries_of(&initialize_attr()));
    assert!(CharCreator::character_to_store("yes", &c).is_some());
    let again = CharCreator::process_commands("yes".to_string(), c, true);
    assert_eq!(again.state, CreationState::Done);
    let failed = character_stored(creator_at(CreationState::Selection), false);
    assert_eq!(failed.state, CreationState::Selection);
    assert_eq!(failed.return_msg, prompts::SAVE_FAILED);
}

#[test]
fn an_answer_of_the_store_means_nothing_at_other_stages_of_creation() {
    for state in [
        CreationState::New,
        CreationState::Race,
        CreationState::Gender,
        CreationState::Type,
        CreationState::Done,
    ] {
        for stored in [true, false] {
            let c = character_stored(creator_at(state), stored);
            assert_eq!(c.state, state);
            assert_eq!(c.return_msg, "");
            assert_eq!(c.character.info.get("race"), Some(&"1".to_string()));
        }
    }
}

#[test]
fn type_without_a_recorded_race_takes_the_weights_of_the_number_typed() {
    for (line, expected) in [
        ("1", [("str", 5), ("agi", 2), ("int", 3), ("charm", 3)]),
        ("2", [("str", 3), ("agi", 5), ("int", 3), ("charm", 2)]),
        ("3", [("str", 2), ("agi", 2), ("int", 4), ("charm", 5)]),
        ("4", [("str", 3), ("agi", 3), ("int", 3), ("charm", 3)]),
    ] {
        let mut stale: Dict<i32> = Dict::new();
        stale.insert("hp".to_string(), 99);
        let character = Character::new_from_data("alice".to_string(), Dict::new(), stale);
        let start = CharCreator::new_from_data(
            "alice".to_string(),
            character,
            CreationState::Type,
            String::new(),
        );
        let c = CharCreator::process_commands(line.to_string(), start, true);
        assert_eq!(c.state, CreationState::Selection);
        assert_eq!(entries_of(&c.character.attr), pairs(&expected));
        assert_eq!(c.character.info.get("type"), Some(&line.to_string()));
        assert!(c.return_msg.starts_with(prompts::ATTRSELECTION));
        assert!(c.return_msg.len() > prompts::ATTRSELECTION.len() + 1);
    }
    let mut odd = creator_at(CreationState::Type);
    odd.character.info.insert("race".to_string(), "elf".to_string());
    let c = CharCreator::process_commands("4".to_string(), odd, true);
    assert_eq!(entries_of(&c.character.attr), pairs(&[("str", 3), ("agi", 3), ("int", 3), ("charm", 3)]));
}

#[test]
fn selection_goes_back_to_the_type_on_anything_else() {
    for line in ["n", "no", "", "Y", "maybe"] {
        let c = CharCreator::process_commands(line.to_string(), creator_at(CreationState::Selection), true);
        assert_eq!(c.state, CreationState::Type);
        assert_eq!(c.return_msg, prompts::TYPESELECTION);
    }
}

#[test]
fn done_stays_done_and_says_nothing() {
    let c = CharCreator::process_commands("yes".to_string(), creator_at(CreationState::Done), true);
    assert_eq!(c.state, CreationState::Done);
    assert_eq!(c.return_msg, "");
    assert_eq!(c.character.info.get("race"), Some(&"1".to_string()));
}

#[test]
fn save_character_lists_description_then_attributes() {
    let mut info: Dict<String> = Dict::new();
    info.insert("name".to_string(), "Al".to_string());
    let mut attr: Dict<i32> = Dict::new();
    attr.insert("hp".to_string(), -12);
    attr.insert("mana".to_string(), 0);
    let request = save_character("al", &Character::new_from_data("x".to_string(), info, attr));
    assert_eq!(request.table, "player_char_info");
    assert_eq!(request.key, "al");
    let columns: Vec<(String, String)> =
        request.data.iter().map(|c| (c.name.clone(), c.value.clone())).collect();
    assert_eq!(columns, text_pairs(&[("name", "Al"), ("hp", "-12"), ("mana", "0")]));
}

#[test]
fn how_the_store_went_matters_at_the_confirmation_alone() {
    for state in [
        CreationState::New,
        CreationState::Race,
        CreationState::Gender,
        CreationState::Type,
        CreationState::Done,
    ] {
        for line in ["1", "m", "yes", "x"] {
            let a = CharCreator::process_commands(line.to_string(), creator_at(state), true);
            let b = CharCreator::process_commands(line.to_string(), creator_at(state), false);
            assert_eq!(a.state, b.state);
            assert_eq!(a.return_msg, b.return_msg);
            assert_eq!(texts_of(&a.character.info), texts_of(&b.character.info));
            assert_eq!(entries_of(&a.character.attr), entries_of(&b.character.attr));
        }
    }
    let a = CharCreator::process_commands("no".to_string(), creator_at(CreationState::Selection), true);
    let b = CharCreator::process_commands("no".to_string(), creator_at(CreationState::Selection), false);
    assert_eq!((a.state, a.return_msg), (b.state, b.return_msg));
}
