use game_logic::tree_house::{
    parse_diet_choice, what_is_your_name, Arrival, DietChoice, GuestList, Registration,
    RegistrationReply, Stage, Visitor, VisitorDiet,
};

fn visitor(name: &str) -> Visitor {
    Visitor::new(name, "oi", VisitorDiet::Meat)
}

#[test]
fn visitor_new_lowercases_name_and_greeting() {
    let v = Visitor::new("GaBrIeL", "Olá, GABRIEL!", VisitorDiet::Vegan);
    assert_eq!(v.name, "gabriel");
    assert_eq!(v.greeting, "olá, gabriel!");
    assert!(matches!(v.diet, VisitorDiet::Vegan));
}

#[test]
fn visitor_new_lowercases_non_ascii() {
    let v = Visitor::new("ÉDU", "CAMARÃO", VisitorDiet::Meat);
    assert_eq!(v.name, "édu");
    assert_eq!(v.greeting, "camarão");
}

#[test]
fn diet_replies() {
    assert_eq!(visitor("a").diet_reply(), "não deixe de provar a picanha.");
    assert_eq!(
        Visitor::new("a", "b", VisitorDiet::Oni).diet_reply(),
        "peça uma carne com uma salada."
    );
    assert_eq!(Visitor::new("a", "b", VisitorDiet::Vegan).diet_reply(), "servimos leite de soja.");
}

#[test]
fn allergy_reply_trims_the_food() {
    let v = Visitor::new(
        "a",
        "b",
        VisitorDiet::Allergic { food: String::from("  camarão\n") },
    );
    assert_eq!(v.diet_reply(), "Vou pedir pra não usarem camarão.");
}

#[test]
fn names_are_trimmed_then_lowercased() {
    assert_eq!(what_is_your_name("  Ana Maria \n"), "ana maria");
    assert_eq!(what_is_your_name("\n"), "");
    assert_eq!(what_is_your_name("\tÉDU\r\n"), "édu");
}

#[test]
fn the_night_starts_with_four_guests() {
    let g = GuestList::new();
    let names: Vec<&str> = g.visitors.iter().map(|v| v.name.as_str()).collect();
    assert_eq!(names, vec!["gabriel", "fernando", "marcos", "edu"]);
    assert_eq!(g.visitors[1].greeting, "fernando, seu leite está na geladeira.");
    assert!(matches!(g.visitors[0].diet, VisitorDiet::Meat));
    assert!(matches!(g.visitors[1].diet, VisitorDiet::Vegan));
    assert!(matches!(g.visitors[2].diet, VisitorDiet::Oni));
    match &g.visitors[3].diet {
        VisitorDiet::Allergic { food } => assert_eq!(food, "camarão"),
        _ => panic!("edu is allergic"),
    }
    assert_eq!(g.visitors[3].diet_reply(), "Vou pedir pra não usarem camarão.");
}

#[test]
fn arrivals() {
    let g = GuestList::new();
    assert_eq!(g.arrive(&String::from("marcos")), Arrival::Greet(2));
    assert_eq!(g.arrive(&String::from("Marcos")), Arrival::Register);
    assert_eq!(g.arrive(&String::from("ana")), Arrival::Register);
    assert_eq!(g.arrive(&String::new()), Arrival::Leave);
}

#[test]
fn find_gives_the_first_with_the_name() {
    let mut g = GuestList::new();
    g.register(visitor("gabriel"));
    assert_eq!(g.find(&String::from("gabriel")), Some(0));
    assert_eq!(g.find(&String::from("zé")), None);
}

#[test]
fn a_registered_stranger_is_greeted_next_time() {
    let mut g = GuestList::new();
    assert_eq!(g.arrive(&String::from("ana")), Arrival::Register);
    g.register(visitor("ana"));
    assert_eq!(g.visitors.len(), 5);
    assert_eq!(g.arrive(&String::from("ana")), Arrival::Greet(4));
    assert_eq!(g.arrive(&String::from("edu")), Arrival::Greet(3));
}

#[test]
fn an_empty_name_on_the_list_is_greeted() {
    let mut g = GuestList::new();
    g.register(visitor(""));
    assert_eq!(g.arrive(&String::new()), Arrival::Greet(4));
}

#[test]
fn diet_menu_answers() {
    assert_eq!(parse_diet_choice("1\n"), Some(DietChoice::Meat));
    assert_eq!(parse_diet_choice("  2 "), Some(DietChoice::Oni));
    assert_eq!(parse_diet_choice("3"), Some(DietChoice::Vegan));
    assert_eq!(parse_diet_choice("\t4\r\n"), Some(DietChoice::Allergy));
    assert_eq!(parse_diet_choice("5\n"), None);
    assert_eq!(parse_diet_choice("12\n"), None);
    assert_eq!(parse_diet_choice("\n"), None);
    assert_eq!(parse_diet_choice("um"), None);
}

#[test]
fn registration_with_a_diet() {
    let mut r = Registration::start();
    assert!(matches!(r.answer("  Bia \n"), RegistrationReply::AskGreeting));
    assert_eq!(r.name, "bia");
    assert!(matches!(r.answer("Oi, BIA!\n"), RegistrationReply::AskDiet));
    assert_eq!(r.greeting, "oi, bia!");
    match r.answer("2\n") {
        RegistrationReply::Welcome(v) => {
            assert_eq!(v.name, "bia");
            assert_eq!(v.greeting, "oi, bia!");
            assert!(matches!(v.diet, VisitorDiet::Oni));
        }
        other => panic!("unexpected {:?}", other),
    }
    assert_eq!(r.stage, Stage::Done);
    assert!(matches!(r.answer("1\n"), RegistrationReply::Finished));
}

#[test]
fn registration_with_an_allergy_keeps_the_food_as_typed() {
    let mut r = Registration::start();
    r.answer("Zé\n");
    r.answer("e aí\n");
    assert!(matches!(r.answer("4\n"), RegistrationReply::AskFood));
    assert_eq!(r.stage, Stage::Food);
    match r.answer("nozes\n") {
        RegistrationReply::Welcome(v) => {
            assert_eq!(v.name, "zé");
            match v.diet {
                VisitorDiet::Allergic { food } => assert_eq!(food, "nozes\n"),
                _ => panic!("allergic expected"),
            }
        }
        other => panic!("unexpected {:?}", other),
    }
}

#[test]
fn blank_diet_answers_are_not_understood_but_harmless() {
    let mut r = Registration::start();
    r.answer("a\n");
    r.answer("b\n");
    assert!(matches!(r.answer("\n"), RegistrationReply::NotUnderstood));
    assert_eq!(r.diet_answer, "\n");
    assert!(matches!(r.answer("3\n"), RegistrationReply::Welcome(_)));
}

#[test]
fn a_misunderstood_diet_answer_sticks() {
    let mut r = Registration::start();
    r.answer("a\n");
    r.answer("b\n");
    assert!(matches!(r.answer("x\n"), RegistrationReply::NotUnderstood));
    assert!(matches!(r.answer("1\n"), RegistrationReply::NotUnderstood));
    assert_eq!(r.diet_answer, "x\n1\n");
    assert_eq!(r.stage, Stage::Diet);
}
