//! The tree house doorman: a guest list, how each guest is greeted, and the
//! dialogue that registers a stranger.
use vstd::prelude::*;

use crate::text::{
    lemma_trim_end_append, lemma_trim_start_append, lowercase, str_to_lowercase, str_trim,
    trim_chars, trim_end_chars, trim_start_chars,
};

verus! {

/// What a visitor eats.
#[derive(Debug)]
pub enum VisitorDiet {
    Meat,
    Oni,
    Vegan,
    Allergic { food: String },
}

/// A diet, with the allergen as its characters.
pub enum DietView {
    Meat,
    Oni,
    Vegan,
    Allergic(Seq<char>),
}

impl View for VisitorDiet {
    type V = DietView;

    open spec fn view(&self) -> DietView {
        match self {
            VisitorDiet::Meat => DietView::Meat,
            VisitorDiet::Oni => DietView::Oni,
            VisitorDiet::Vegan => DietView::Vegan,
            VisitorDiet::Allergic { food } => DietView::Allergic(food@),
        }
    }
}

/// A guest of the tree house.
#[derive(Debug)]
pub struct Visitor {
    pub name: String,
    pub greeting: String,
    pub diet: VisitorDiet,
}

/// A visitor as its name, greeting and diet.
pub struct VisitorView {
    pub name: Seq<char>,
    pub greeting: Seq<char>,
    pub diet: DietView,
}

impl View for Visitor {
    type V = VisitorView;

    open spec fn view(&self) -> VisitorView {
        VisitorView { name: self.name@, greeting: self.greeting@, diet: self.diet@ }
    }
}

/// The visitor that `Visitor::new(name, greeting, diet)` makes.
pub open spec fn new_visitor(name: Seq<char>, greeting: Seq<char>, diet: DietView) -> VisitorView {
    VisitorView { name: lowercase(name), greeting: lowercase(greeting), diet }
}

/// What the doorman says to a known visitor after the greeting, by diet.
pub open spec fn diet_reply_text(diet: DietView) -> Seq<char> {
    match diet {
        DietView::Meat => "não deixe de provar a picanha."@,
        DietView::Oni => "peça uma carne com uma salada."@,
        DietView::Vegan => "servimos leite de soja."@,
        DietView::Allergic(food) => "Vou pedir pra não usarem "@ + trim_chars(food) + "."@,
    }
}

impl Visitor {
    /// A visitor whose name and greeting are stored in lowercase.
    pub fn new(name: &str, greeting: &str, diet: VisitorDiet) -> (v: Self)
        ensures
            v@ == new_visitor(name@, greeting@, diet@),
    {
        Visitor { name: str_to_lowercase(name), greeting: str_to_lowercase(greeting), diet }
    }

    /// The line that follows the greeting when this visitor arrives; an
    /// allergen is named without its surrounding white space.
    pub fn diet_reply(&self) -> (r: String)
        ensures
            r@ == diet_reply_text(self.diet@),
    {
        match &self.diet {
            VisitorDiet::Meat => String::from_str("não deixe de provar a picanha."),
            VisitorDiet::Oni => String::from_str("peça uma carne com uma salada."),
            VisitorDiet::Vegan => String::from_str("servimos leite de soja."),
            VisitorDiet::Allergic { food } => {
                let mut r = String::from_str("Vou pedir pra não usarem ");
                r.append(str_trim(food.as_str()));
                r.append(".");
                r
            },
        }
    }
}

/// A line of input as the doorman hears a name: trimmed, then lowercased.
pub fn what_is_your_name(line: &str) -> (r: String)
    ensures
        r@ == lowercase(trim_chars(line@)),
{
    str_to_lowercase(str_trim(line))
}

/// How the doorman answers a name at the door.
#[derive(Debug, PartialEq, Eq, Structural)]
pub enum Arrival {
    /// A listed visitor: the index of the first with that name.
    Greet(usize),
    /// An unknown, non-empty name: the stranger is registered.
    Register,
    /// An empty name nobody on the list has: the night is over.
    Leave,
}

/// Whether someone in `vs` is called `name`.
pub open spec fn listed(vs: Seq<Visitor>, name: Seq<char>) -> bool {
    exists|j: int| 0 <= j < vs.len() && #[trigger] vs[j].name@ == name
}

/// Whether `i` is the first visitor in `vs` called `name`.
pub open spec fn first_named(vs: Seq<Visitor>, name: Seq<char>, i: int) -> bool {
    &&& 0 <= i < vs.len()
    &&& vs[i].name@ == name
    &&& forall|j: int| 0 <= j < i ==> #[trigger] vs[j].name@ != name
}

/// Registering a visitor makes their name known at the door: it is greeted
/// as the new visitor unless someone listed before already has it. Every name
/// known before is still greeted as the same visitor, and no other name
/// becomes known.
pub proof fn lemma_register_then_arrive(vs: Seq<Visitor>, v: Visitor, name: Seq<char>)
    ensures
        listed(vs.push(v), v.name@),
        !listed(vs, v.name@) ==> first_named(vs.push(v), v.name@, vs.len() as int),
        forall|i: int| first_named(vs, name, i) ==> first_named(vs.push(v), name, i),
        !listed(vs, name) && name != v.name@ ==> !listed(vs.push(v), name),
{
    let ws = vs.push(v);
    assert(ws[vs.len() as int].name@ == v.name@);
    assert forall|i: int| first_named(vs, name, i) implies first_named(ws, name, i) by {
        assert forall|j: int| 0 <= j < i implies #[trigger] ws[j].name@ != name by {
            assert(ws[j] == vs[j]);
        }
        assert(ws[i] == vs[i]);
    }
    if !listed(vs, v.name@) {
        assert forall|j: int| 0 <= j < vs.len() implies #[trigger] ws[j].name@ != v.name@ by {
            assert(ws[j] == vs[j]);
        }
    }
    if !listed(vs, name) && name != v.name@ {
        assert forall|j: int| 0 <= j < ws.len() implies #[trigger] ws[j].name@ != name by {
            if j < vs.len() {
                assert(ws[j] == vs[j]);
            }
        }
    }
}

/// The visitors of the tree house, in the order they were listed.
pub struct GuestList {
    pub visitors: Vec<Visitor>,
}

impl GuestList {
    /// The guest list at the start of the night.
    pub fn new() -> (g: Self)
        ensures
            g.visitors.len() == 4,
            g.visitors[0]@ == new_visitor("gabriel"@, "divirta-se, gabriel!"@, DietView::Meat),
            g.visitors[1]@ == new_visitor(
                "fernando"@,
                "fernando, seu leite está na geladeira."@,
                DietView::Vegan,
            ),
            g.visitors[2]@ == new_visitor("marcos"@, "marcos!? quem te convidou?"@, DietView::Oni),
            g.visitors[3]@ == new_visitor(
                "edu"@,
                "fala, duds! hehe..."@,
                DietView::Allergic("camarão"@),
            ),
    {
        let mut visitors: Vec<Visitor> = Vec::new();
        visitors.push(Visitor::new("gabriel", "divirta-se, gabriel!", VisitorDiet::Meat));
        visitors.push(
            Visitor::new("fernando", "fernando, seu leite está na geladeira.", VisitorDiet::Vegan),
        );
        visitors.push(Visitor::new("marcos", "marcos!? quem te convidou?", VisitorDiet::Oni));
        visitors.push(
            Visitor::new(
                "edu",
                "fala, duds! hehe...",
                VisitorDiet::Allergic { food: String::from_str("camarão") },
            ),
        );
        GuestList { visitors }
    }

    /// The index of the first visitor called `name`, if any.
    pub fn find(&self, name: &String) -> (r: Option<usize>)
        ensures
            match r {
                Some(i) => first_named(self.visitors@, name@, i as int),
                None => !listed(self.visitors@, name@),
            },
    {
        let mut i: usize = 0;
        while i < self.visitors.len()
            invariant
                i <= self.visitors.len(),
                forall|j: int| 0 <= j < i ==> self.visitors[j].name@ != name@,
            decreases self.visitors.len() - i,
        {
            if self.visitors[i].name == *name {
                assert(self.visitors@[i as int].name@ == name@);
                return Some(i);
            }
            i = i + 1;
        }
        None
    }

    /// What happens when someone says `name` at the door: a listed name is
    /// greeted (a listed empty name too); otherwise an empty name ends the night
    /// and any other name is registered.
    pub fn arrive(&self, name: &String) -> (a: Arrival)
        ensures
            match a {
                Arrival::Greet(i) => first_named(self.visitors@, name@, i as int),
                Arrival::Register => name@.len() != 0 && !listed(self.visitors@, name@),
                Arrival::Leave => name@.len() == 0 && !listed(self.visitors@, name@),
            },
    {
        match self.find(name) {
            Some(i) => Arrival::Greet(i),
            None => {
                if name.as_str().is_empty() {
                    Arrival::Leave
                } else {
                    Arrival::Register
                }
            },
        }
    }

    /// Adds a newly registered visitor at the end of the list.
    pub fn register(&mut self, v: Visitor)
        ensures
            final(self).visitors@ == old(self).visitors@.push(v),
    {
        self.visitors.push(v);
    }
}

/// A diet as picked from the doorman's menu.
#[derive(Debug, PartialEq, Eq, Structural)]
pub enum DietChoice {
    Meat,
    Oni,
    Vegan,
    Allergy,
}

/// The diet chosen by an answer: "1" to "4" once white space is trimmed.
pub open spec fn diet_choice(answer: Seq<char>) -> Option<DietChoice> {
    let t = trim_chars(answer);
    if t == seq!['1'] {
        Some(DietChoice::Meat)
    } else if t == seq!['2'] {
        Some(DietChoice::Oni)
    } else if t == seq!['3'] {
        Some(DietChoice::Vegan)
    } else if t == seq!['4'] {
        Some(DietChoice::Allergy)
    } else {
        None
    }
}

/// Diet answers pile up: once what was answered so far holds more than white
/// space and is not understood, nothing answered after it is understood
/// either, and the pile still holds more than white space.
pub proof fn lemma_misunderstood_diet_stays(a: Seq<char>, l: Seq<char>)
    requires
        diet_choice(a) is None,
        trim_chars(a).len() > 0,
    ensures
        diet_choice(a + l) is None,
        trim_chars(a + l).len() > 0,
{
    let ts = trim_start_chars(a);
    assert(ts.len() > 0) by {
        if ts.len() == 0 {
            assert(trim_end_chars(ts) == ts);
        }
    }
    lemma_trim_start_append(a, l);
    lemma_trim_end_append(ts, l);
    let t = trim_chars(a);
    let u = trim_chars(a + l);
    assert(u.take(t.len() as int) == t);
    assert(u[0] == t[0]);
    if u.len() == 1 {
        assert(t.len() == 1);
        assert(t =~= seq![t[0]]);
        assert(u =~= seq![u[0]]);
    }
}

/// Reads a diet answer: "1" meat, "2" omnivore, "3" vegan, "4" an allergy,
/// with surrounding white space ignored; anything else is not understood.
pub fn parse_diet_choice(answer: &str) -> (r: Option<DietChoice>)
    ensures
        r == diet_choice(answer@),
{
    let t = str_trim(answer);
    if t.unicode_len() == 1 {
        let c = t.get_char(0);
        let ghost one: Seq<char> = seq![c];
        assert(t@ =~= one);
        if c == '1' {
            Some(DietChoice::Meat)
        } else if c == '2' {
            Some(DietChoice::Oni)
        } else if c == '3' {
            Some(DietChoice::Vegan)
        } else if c == '4' {
            Some(DietChoice::Allergy)
        } else {
            None
        }
    } else {
        assert(t@.len() != 1);
        None
    }
}

/// Where the registration of a stranger stands: the question whose answer
/// comes next.
#[derive(Debug, PartialEq, Eq, Structural)]
pub enum Stage {
    Name,
    Greeting,
    Diet,
    Food,
    Done,
}

/// The doorman's dialogue with a stranger, fed one line of input at a time.
/// Diet answers accumulate in `diet_answer`, each read appended to the ones
/// before, and the whole is what is matched against the menu.
pub struct Registration {
    pub stage: Stage,
    pub name: String,
    pub greeting: String,
    pub diet_answer: String,
}

/// What the doorman does after an answer.
#[derive(Debug)]
pub enum RegistrationReply {
    /// Asks how the stranger wants to be greeted.
    AskGreeting,
    /// Shows the diet menu.
    AskDiet,
    /// Did not understand the diet answer and shows the menu again.
    NotUnderstood,
    /// Asks what the stranger is allergic to.
    AskFood,
    /// Thanks the stranger, who is now this visitor.
    Welcome(Visitor),
    /// The registration was already over; the line changes nothing.
    Finished,
}

/// The diet that a menu choice other than an allergy stands for.
pub open spec fn chosen_diet(c: DietChoice) -> DietView {
    match c {
        DietChoice::Meat => DietView::Meat,
        DietChoice::Oni => DietView::Oni,
        _ => DietView::Vegan,
    }
}

/// The diet menu's entries: an answer that trims to "1" is a meat eater,
/// "2" an omnivore, "3" a vegan, and "4" an allergy (asked about next).
pub proof fn lemma_menu_entries(a: Seq<char>)
    ensures
        trim_chars(a) == seq!['1'] ==> diet_choice(a) == Some(DietChoice::Meat) && chosen_diet(
            DietChoice::Meat,
        ) == DietView::Meat,
        trim_chars(a) == seq!['2'] ==> diet_choice(a) == Some(DietChoice::Oni) && chosen_diet(
            DietChoice::Oni,
        ) == DietView::Oni,
        trim_chars(a) == seq!['3'] ==> diet_choice(a) == Some(DietChoice::Vegan) && chosen_diet(
            DietChoice::Vegan,
        ) == DietView::Vegan,
        trim_chars(a) == seq!['4'] ==> diet_choice(a) == Some(DietChoice::Allergy),
{
    lemma_single_chars_differ();
}

/// One-character answers with different characters are different answers.
proof fn lemma_single_chars_differ()
    ensures
        seq!['1'] != seq!['2'],
        seq!['1'] != seq!['3'],
        seq!['1'] != seq!['4'],
        seq!['2'] != seq!['3'],
        seq!['2'] != seq!['4'],
        seq!['3'] != seq!['4'],
{
    assert(seq!['1'][0] != seq!['2'][0]);
    assert(seq!['1'][0] != seq!['3'][0]);
    assert(seq!['1'][0] != seq!['4'][0]);
    assert(seq!['2'][0] != seq!['3'][0]);
    assert(seq!['2'][0] != seq!['4'][0]);
    assert(seq!['3'][0] != seq!['4'][0]);
}

impl Registration {
    /// A registration that has not asked anything yet.
    pub fn start() -> (r: Self)
        ensures
            r.stage == Stage::Name,
            r.name@.len() == 0,
            r.greeting@.len() == 0,
            r.diet_answer@.len() == 0,
    {
        Registration {
            stage: Stage::Name,
            name: String::new(),
            greeting: String::new(),
            diet_answer: String::new(),
        }
    }

    /// Takes the stranger's next line (as read, line break included).
    /// The name and the greeting are kept trimmed and lowercased; a diet line
    /// is appended to the earlier ones and the whole is matched; an allergen is
    /// kept as read; the visitor made at the end lowercases name and greeting
    /// once more.
    pub fn answer(&mut self, line: &str) -> (reply: RegistrationReply)
        ensures
            old(self).stage == Stage::Diet ==> {
                let t = trim_chars(old(self).diet_answer@ + line@);
                &&& t == seq!['1'] ==> (reply matches RegistrationReply::Welcome(v) && v.diet@
                    == DietView::Meat)
                &&& t == seq!['2'] ==> (reply matches RegistrationReply::Welcome(v) && v.diet@
                    == DietView::Oni)
                &&& t == seq!['3'] ==> (reply matches RegistrationReply::Welcome(v) && v.diet@
                    == DietView::Vegan)
                &&& t == seq!['4'] ==> reply is AskFood
            },
            match old(self).stage {
                Stage::Name => {
                    &&& reply is AskGreeting
                    &&& final(self).stage == Stage::Greeting
                    &&& final(self).name@ == lowercase(trim_chars(line@))
                    &&& final(self).greeting@ == old(self).greeting@
                    &&& final(self).diet_answer@ == old(self).diet_answer@
                },
                Stage::Greeting => {
                    &&& reply is AskDiet
                    &&& final(self).stage == Stage::Diet
                    &&& final(self).name@ == old(self).name@
                    &&& final(self).greeting@ == lowercase(trim_chars(line@))
                    &&& final(self).diet_answer@ == old(self).diet_answer@
                },
                Stage::Diet => {
                    let all = old(self).diet_answer@ + line@;
                    &&& final(self).name@ == old(self).name@
                    &&& final(self).greeting@ == old(self).greeting@
                    &&& final(self).diet_answer@ == all
                    &&& match diet_choice(all) {
                        None => reply is NotUnderstood && final(self).stage == Stage::Diet,
                        Some(DietChoice::Allergy) => reply is AskFood && final(self).stage
                            == Stage::Food,
                        Some(c) => final(self).stage == Stage::Done && (reply matches RegistrationReply::Welcome(v)
                            && v@ == new_visitor(old(self).name@, old(self).greeting@, chosen_diet(c))),
                    }
                },
                Stage::Food => {
                    &&& final(self).stage == Stage::Done
                    &&& final(self).name@ == old(self).name@
                    &&& final(self).greeting@ == old(self).greeting@
                    &&& final(self).diet_answer@ == old(self).diet_answer@
                    &&& reply matches RegistrationReply::Welcome(v) && v@ == new_visitor(
                        old(self).name@,
                        old(self).greeting@,
                        DietView::Allergic(line@),
                    )
                },
                Stage::Done => {
                    &&& reply is Finished
                    &&& final(self).stage == Stage::Done
                    &&& final(self).name@ == old(self).name@
                    &&& final(self).greeting@ == old(self).greeting@
                    &&& final(self).diet_answer@ == old(self).diet_answer@
                },
            },
    {
        match self.stage {
            Stage::Name => {
                self.name = what_is_your_name(line);
                self.stage = Stage::Greeting;
                RegistrationReply::AskGreeting
            },
            Stage::Greeting => {
                self.greeting = what_is_your_name(line);
                self.stage = Stage::Diet;
                RegistrationReply::AskDiet
            },
            Stage::Diet => {
                self.diet_answer.append(line);
                proof {
                    lemma_menu_entries(self.diet_answer@);
                }
                match parse_diet_choice(self.diet_answer.as_str()) {
                    None => RegistrationReply::NotUnderstood,
                    Some(DietChoice::Allergy) => {
                        self.stage = Stage::Food;
                        RegistrationReply::AskFood
                    },
                    Some(c) => {
                        let diet = match c {
                            DietChoice::Meat => VisitorDiet::Meat,
                            DietChoice::Oni => VisitorDiet::Oni,
                            _ => VisitorDiet::Vegan,
                        };
                        self.stage = Stage::Done;
                        RegistrationReply::Welcome(
                            Visitor::new(self.name.as_str(), self.greeting.as_str(), diet),
                        )
                    },
                }
            },
            Stage::Food => {
                let food = String::from_str(line);
                self.stage = Stage::Done;
                RegistrationReply::Welcome(
                    Visitor::new(
                        self.name.as_str(),
                        self.greeting.as_str(),
                        VisitorDiet::Allergic { food },
                    ),
                )
            },
            Stage::Done => RegistrationReply::Finished,
        }
    }
}

} // verus!
