//! Characters and the dialogue that creates one.
//!
//! Creating a character is a conversation in fixed stages: the player picks
//! a race, a gender and a type, is shown the attributes that result, and
//! confirms them or goes back. [`CharCreator::process_commands`] takes one
//! line of input and the conversation so far, and answers with the next
//! stage and the reply to send. The character is done once it is stored:
//! the record to store is asked for before the step, with
//! [`CharCreator::character_to_store`], and the step is told how the store
//! went. A store that failed is reported to the player.

use crate::decimal::{decimal, parse_i32, parse_int, to_decimal};
use crate::dict::{keys, lookup, put, put_fresh, put_is_found, put_next, Dict};
use crate::messages::character::{
    ATTRSELECTION,
    GENDERSELECTION,
    RACESELECTION,
    SAVE_FAILED,
    SUCCESS,
    TYPESELECTION,
};
use crate::storage::{columns, DataColumn, InsertRequest, InsertRequestView};
use crate::text::{split, split_on, trim, trim_end, trim_start, trimmed, views};
use rand::Rng;
use vstd::prelude::*;
use vstd::string::*;

verus! {

/// What a [`Character`] holds, as plain text and numbers.
pub struct CharacterView {
    pub username: Seq<char>,
    pub info: Seq<(Seq<char>, Seq<char>)>,
    pub attr: Seq<(Seq<char>, i32)>,
    pub items: Seq<()>,
    pub equips: Seq<()>,
    pub skills: Seq<()>,
    pub history: Seq<()>,
}

/// A player's character: who it belongs to, what describes it, and its
/// numeric attributes. Inventory, equipment, skills and history are kept
/// for later use and stay empty.
pub struct Character {
    pub username: String,
    pub info: Dict<String>,
    pub attr: Dict<i32>,
    pub items: Vec<()>,
    pub equips: Vec<()>,
    pub skills: Vec<()>,
    pub history: Vec<()>,
}

impl View for Character {
    type V = CharacterView;

    open spec fn view(&self) -> CharacterView {
        CharacterView {
            username: self.username@,
            info: self.info@,
            attr: self.attr@,
            items: self.items@,
            equips: self.equips@,
            skills: self.skills@,
            history: self.history@,
        }
    }
}

/// A character of the given owner with the given description and
/// attributes, and nothing else.
pub open spec fn character_of(
    username: Seq<char>,
    info: Seq<(Seq<char>, Seq<char>)>,
    attr: Seq<(Seq<char>, i32)>,
) -> CharacterView {
    CharacterView {
        username,
        info,
        attr,
        items: Seq::empty(),
        equips: Seq::empty(),
        skills: Seq::empty(),
        history: Seq::empty(),
    }
}

impl Character {
    /// A character without owner, description or attributes.
    pub fn new() -> (c: Character)
        ensures
            c@ == character_of(Seq::empty(), Seq::empty(), Seq::empty()),
    {
        Character {
            username: String::new(),
            info: Dict::new(),
            attr: Dict::new(),
            items: Vec::new(),
            equips: Vec::new(),
            skills: Vec::new(),
            history: Vec::new(),
        }
    }

    /// A character with the given owner, description and attributes.
    pub fn new_from_data(id: String, char_info: Dict<String>, char_attr: Dict<i32>) -> (c:
        Character)
        ensures
            c@ == character_of(id@, char_info@, char_attr@),
    {
        Character {
            username: id,
            info: char_info,
            attr: char_attr,
            items: Vec::new(),
            equips: Vec::new(),
            skills: Vec::new(),
            history: Vec::new(),
        }
    }
}

/// The description that every new character starts from: the five
/// standard keys, each with an empty text.
pub open spec fn initial_info() -> Seq<(Seq<char>, Seq<char>)> {
    let none = Seq::<char>::empty();
    put(
        put(
            put(put(put(Seq::empty(), "name"@, none), "race"@, none), "personality"@, none),
            "description"@,
            none,
        ),
        "look"@,
        none,
    )
}

/// The description that every new character starts from.
pub fn initialize_info() -> (info: Dict<String>)
    ensures
        info@ == initial_info(),
{
    let mut info: Dict<String> = Dict::new();
    info.insert(String::from_str("name"), String::new());
    info.insert(String::from_str("race"), String::new());
    info.insert(String::from_str("personality"), String::new());
    info.insert(String::from_str("description"), String::new());
    info.insert(String::from_str("look"), String::new());
    info
}

/// The attributes that every new character starts from.
pub open spec fn initial_attr() -> Seq<(Seq<char>, i32)> {
    let vitals = put(put(put(Seq::empty(), "hp"@, 10i32), "stamina"@, 10i32), "mana"@, 10i32);
    put(put(put(vitals, "agility"@, 3i32), "strength"@, 3i32), "magic"@, 3i32)
}

/// The initial attributes are six: `hp`, `stamina` and `mana` at 10, and
/// `agility`, `strength` and `magic` at 3.
pub proof fn initial_attr_entries()
    ensures
        initial_attr() == seq![
            ("hp"@, 10i32),
            ("stamina"@, 10i32),
            ("mana"@, 10i32),
            ("agility"@, 3i32),
            ("strength"@, 3i32),
            ("magic"@, 3i32),
        ],
{
    reveal_strlit("hp");
    reveal_strlit("stamina");
    reveal_strlit("mana");
    reveal_strlit("agility");
    reveal_strlit("strength");
    reveal_strlit("magic");
    assert("hp"@[0] == 'h' && "stamina"@[0] == 's' && "mana"@[0] == 'm' && "agility"@[0] == 'a');
    assert("strength"@.len() == 8 && "stamina"@.len() == 7 && "magic"@.len() == 5);
    assert("mana"@.len() == 4);
    let none = Seq::<(Seq<char>, i32)>::empty();
    let one = none.push(("hp"@, 10i32));
    let two = one.push(("stamina"@, 10i32));
    let three = two.push(("mana"@, 10i32));
    let four = three.push(("agility"@, 3i32));
    let five = four.push(("strength"@, 3i32));
    put_fresh(none, "hp"@, 10i32);
    put_fresh(one, "stamina"@, 10i32);
    put_fresh(two, "mana"@, 10i32);
    put_fresh(three, "agility"@, 3i32);
    put_fresh(four, "strength"@, 3i32);
    put_fresh(five, "magic"@, 3i32);
    assert(five.push(("magic"@, 3i32)) =~= seq![
        ("hp"@, 10i32),
        ("stamina"@, 10i32),
        ("mana"@, 10i32),
        ("agility"@, 3i32),
        ("strength"@, 3i32),
        ("magic"@, 3i32),
    ]);
}

/// The attributes that every new character starts from.
pub fn initialize_attr() -> (attr: Dict<i32>)
    ensures
        attr@ == initial_attr(),
{
    let mut attr: Dict<i32> = Dict::new();
    attr.insert(String::from_str("hp"), 10);
    attr.insert(String::from_str("stamina"), 10);
    attr.insert(String::from_str("mana"), 10);
    attr.insert(String::from_str("agility"), 3);
    attr.insert(String::from_str("strength"), 3);
    attr.insert(String::from_str("magic"), 3);
    attr
}

/// Sets one attribute.
pub fn update_attr(info: &mut Dict<i32>, key: String, value: i32)
    ensures
        final(info)@ == put(old(info)@, key@, value),
{
    info.insert(key, value);
}

/// Sets one text of a description, without the whitespace around it.
pub fn update_info(info: &mut Dict<String>, key: String, value: String)
    ensures
        final(info)@ == put(old(info)@, key@, trimmed(value@)),
{
    let text: String = trim(value.as_str());
    info.insert(key, text);
}

/// `base` after storing every entry of `extra`, first to last.
pub open spec fn put_all<T>(base: Seq<(Seq<char>, T)>, extra: Seq<(Seq<char>, T)>) -> Seq<
    (Seq<char>, T),
>
    decreases extra.len(),
{
    if extra.len() == 0 {
        base
    } else {
        put(put_all(base, extra.drop_last()), extra.last().0, extra.last().1)
    }
}

/// Copies every entry of `data` into `info`; where both have a key, the
/// text of `data` wins.
pub fn update_multi(info: &mut Dict<String>, data: Dict<String>)
    ensures
        final(info)@ == put_all(old(info)@, data@),
{
    let n: usize = data.len();
    let mut i: usize = 0;
    proof {
        assert(data@.take(0) =~= Seq::empty());
    }
    while i < n
        invariant
            i <= n,
            n == data@.len(),
            info@ == put_all(old(info)@, data@.take(i as int)),
        decreases n - i,
    {
        let key: String = data.key_at(i).clone();
        let value: String = data.value_at(i).clone();
        proof {
            let next = data@.take(i + 1);
            assert(next.drop_last() =~= data@.take(i as int));
            assert(next.last() == data@[i as int]);
        }
        info.insert(key, value);
        i += 1;
    }
    proof {
        assert(data@.take(n as int) =~= data@);
    }
}

/// The four weights of a race, under the keys `str`, `agi`, `int` and
/// `charm`, in that order.
pub open spec fn weights_of(strength: i32, agility: i32, intellect: i32, charm: i32) -> Seq<
    (Seq<char>, i32),
> {
    put(
        put(put(put(Seq::empty(), "str"@, strength), "agi"@, agility), "int"@, intellect),
        "charm"@,
        charm,
    )
}

/// The weights by which a race's attributes are generated. Races are
/// numbered 1 (human), 2 (elf), 3 (dwarf) and 4 (dragon); any other number
/// has no weights.
pub open spec fn weightings(race: int) -> Seq<(Seq<char>, i32)> {
    if race == 1 {
        weights_of(5, 2, 3, 3)
    } else if race == 2 {
        weights_of(3, 5, 3, 2)
    } else if race == 3 {
        weights_of(2, 2, 4, 5)
    } else if race == 4 {
        weights_of(3, 3, 3, 3)
    } else {
        Seq::empty()
    }
}

/// The weights of a race are exactly four entries, one for each of `str`,
/// `agi`, `int` and `charm`.
pub proof fn weights_of_entries(strength: i32, agility: i32, intellect: i32, charm: i32)
    ensures
        weights_of(strength, agility, intellect, charm) == seq![
            ("str"@, strength),
            ("agi"@, agility),
            ("int"@, intellect),
            ("charm"@, charm),
        ],
{
    reveal_strlit("str");
    reveal_strlit("agi");
    reveal_strlit("int");
    reveal_strlit("charm");
    assert("str"@[0] == 's' && "agi"@[0] == 'a' && "int"@[0] == 'i' && "charm"@[0] == 'c');
    let none = Seq::<(Seq<char>, i32)>::empty();
    let one = none.push(("str"@, strength));
    let two = one.push(("agi"@, agility));
    let three = two.push(("int"@, intellect));
    put_fresh(none, "str"@, strength);
    put_fresh(one, "agi"@, agility);
    put_fresh(two, "int"@, intellect);
    put_fresh(three, "charm"@, charm);
    assert(three.push(("charm"@, charm)) =~= seq![
        ("str"@, strength),
        ("agi"@, agility),
        ("int"@, intellect),
        ("charm"@, charm),
    ]);
}

/// Each of the four races has a weight for each of `str`, `agi`, `int` and
/// `charm` and for nothing else, and none of the weights is negative. As
/// the attributes that are generated from weights are the weights, whatever
/// the budget, they are one number that is not negative for each of these
/// keys.
pub proof fn weightings_cover_the_four_keys(race: int)
    requires
        1 <= race <= 4,
    ensures
        weightings(race).len() == 4,
        keys(weightings(race)) == seq!["str"@, "agi"@, "int"@, "charm"@],
        keys(weightings(race)).no_duplicates(),
        forall|i: int| 0 <= i < weightings(race).len() ==> (#[trigger] weightings(race)[i]).1 >= 0,
{
    weights_of_entries(5, 2, 3, 3);
    weights_of_entries(3, 5, 3, 2);
    weights_of_entries(2, 2, 4, 5);
    weights_of_entries(3, 3, 3, 3);
    reveal_strlit("str");
    reveal_strlit("agi");
    reveal_strlit("int");
    reveal_strlit("charm");
    assert("str"@[0] == 's' && "agi"@[0] == 'a' && "int"@[0] == 'i' && "charm"@[0] == 'c');
    assert(keys(weightings(race)) =~= seq!["str"@, "agi"@, "int"@, "charm"@]);
}

fn make_weights(strength: i32, agility: i32, intellect: i32, charm: i32) -> (w: Dict<i32>)
    ensures
        w@ == weights_of(strength, agility, intellect, charm),
{
    let mut w: Dict<i32> = Dict::new();
    w.insert(String::from_str("str"), strength);
    w.insert(String::from_str("agi"), agility);
    w.insert(String::from_str("int"), intellect);
    w.insert(String::from_str("charm"), charm);
    w
}

/// The weights by which the attributes of a race are generated.
pub fn get_weightings(race_selected: i32) -> (weighting: Dict<i32>)
    ensures
        weighting@ == weightings(race_selected as int),
{
    if race_selected == 1 {
        make_weights(5, 2, 3, 3)
    } else if race_selected == 2 {
        make_weights(3, 5, 3, 2)
    } else if race_selected == 3 {
        make_weights(2, 2, 4, 5)
    } else if race_selected == 4 {
        make_weights(3, 3, 3, 3)
    } else {
        Dict::new()
    }
}

/// The share of a budget that falls to each of the attributes still to
/// come: the budget divided by their number, rounded toward zero.
pub open spec fn budget_share(points_left: int, remaining: int) -> int {
    if points_left >= 0 {
        points_left / remaining
    } else {
        -((-points_left) / remaining)
    }
}

fn share(points_left: i32, remaining: usize) -> (average: i32)
    requires
        remaining > 0,
    ensures
        average == budget_share(points_left as int, remaining as int),
{
    if remaining > 0x8000_0000 {
        proof {
            let p = points_left as int;
            let r = remaining as int;
            assert(p >= 0 ==> p / r == 0) by (nonlinear_arith)
                requires
                    p < r,
                    r > 0,
            ;
            assert(p < 0 ==> (-p) / r == 0) by (nonlinear_arith)
                requires
                    -p < r,
                    r > 0,
            ;
        }
        0
    } else {
        let wide: i64 = points_left as i64;
        let count: i64 = remaining as i64;
        proof {
            let p: int = if wide >= 0 {
                wide as int
            } else {
                -(wide as int)
            };
            let r: int = count as int;
            assert(0 <= p / r <= p) by (nonlinear_arith)
                requires
                    p >= 0,
                    r > 0,
            ;
        }
        if wide >= 0 {
            (wide / count) as i32
        } else {
            (-((-wide) / count)) as i32
        }
    }
}

/// The budget that is left after one attribute took its part: the number
/// drawn for it, corrected by how far its weight lies from the average.
/// The result stays within 32 bits.
pub open spec fn budget_after(points_left: int, average: int, weight: int, draw: int) -> int {
    let left = points_left - (draw + (weight - average));
    if left < i32::MIN {
        i32::MIN as int
    } else if left > i32::MAX {
        i32::MAX as int
    } else {
        left
    }
}

fn spend(points_left: i32, average: i32, weight: i32, draw: i32) -> (left: i32)
    ensures
        left == budget_after(points_left as int, average as int, weight as int, draw as int),
{
    let taken: i64 = draw as i64 + (weight as i64 - average as i64);
    let left: i64 = points_left as i64 - taken;
    if left < -2147483648 {
        -2147483648
    } else if left > 2147483647 {
        2147483647
    } else {
        left as i32
    }
}

/// Draws a number with `Rng::gen_range` on the thread-local generator of
/// the `rand` crate. Believed of it: the number lies in the half-open range
/// from `low` to `high`. The call panics on an empty range, which the
/// precondition rules out, and where the system has no randomness to seed
/// the generator with.
#[verifier::external_body]
fn draw_between(low: i32, high: i32) -> (r: i32)
    requires
        low < high,
    ensures
        low <= r < high,
{
    rand::thread_rng().gen_range(low, high)
}

/// Draws the part of the budget that an attribute takes before its weight
/// is counted in: a number from 2 up to, not including, the average that
/// is left for each attribute, and 2 where the average leaves no such
/// number.
pub fn draw_share(average: i32) -> (draw: i32)
    ensures
        2 < average ==> 2 <= draw < average,
        average <= 2 ==> draw == 2,
{
    if 2 < average {
        draw_between(2, average)
    } else {
        2
    }
}

/// Generates attributes from a point budget and a weight for each
/// attribute.
///
/// Every weighted attribute is stored once, with its weight as its value
/// and in the order of the weights. Along the way a part of the budget is
/// drawn at random for each attribute; the draws shift the budget that is
/// left for the attributes after it and nothing else, so the attributes
/// that come out do not depend on them.
pub fn initialize_attr_with_bias(max_points: i32, weights: Dict<i32>) -> (attrs: Dict<i32>)
    ensures
        attrs@ == weights@,
{
    let mut attrs: Dict<i32> = Dict::new();
    let size: usize = weights.len();
    let mut points_left: i32 = max_points;
    let mut calculated: usize = 0;
    proof {
        assert(weights@.take(0) =~= Seq::empty());
    }
    while calculated < size
        invariant
            calculated <= size,
            size == weights@.len(),
            keys(weights@).no_duplicates(),
            attrs@ == weights@.take(calculated as int),
        decreases size - calculated,
    {
        let attr: String = weights.key_at(calculated).clone();
        let weight: i32 = *weights.value_at(calculated);
        let average: i32 = share(points_left, size - calculated);
        let draw: i32 = draw_share(average);
        proof {
            put_next(weights@, calculated as int);
        }
        update_attr(&mut attrs, attr, weight);
        calculated += 1;
        points_left = spend(points_left, average, weight, draw);
    }
    proof {
        assert(weights@.take(size as int) =~= weights@);
    }
    attrs
}

/// The number that a line of input selects from the range `min` to `max`:
/// the integer that the trimmed line denotes if it lies in the range, and
/// 0 if it lies outside. A line that denotes no integer counts as -1.
pub open spec fn selection_in(min: int, max: int, input: Seq<char>) -> int {
    let chosen = match parse_int(trimmed(input)) {
        Some(v) => v,
        None => -1,
    };
    if min <= chosen <= max {
        chosen
    } else {
        0
    }
}

/// Whether the trimmed line is one of the choices, which are given as one
/// text with `:` between them.
pub open spec fn is_choice(choices: Seq<char>, input: Seq<char>) -> bool {
    split(choices, ':').contains(trimmed(input))
}

/// Whether the trimmed line is `y` or `yes`.
pub open spec fn is_yes(input: Seq<char>) -> bool {
    trimmed(input) == "y"@ || trimmed(input) == "yes"@
}

/// Reads a line of input as a confirmation.
pub fn confirms(input: &str) -> (b: bool)
    ensures
        b == is_yes(input@),
{
    let answer: String = trim(input);
    answer == String::from_str("y") || answer == String::from_str("yes")
}

/// The line that shows one entry of a description.
pub open spec fn entry_line(entry: (Seq<char>, Seq<char>)) -> Seq<char> {
    "["@ + entry.0 + "]:"@ + entry.1 + "---"@
}

/// The lines that show a description: a heading, then one line for each
/// entry.
pub open spec fn hashmap_lines(hash: Seq<(Seq<char>, Seq<char>)>) -> Seq<Seq<char>> {
    seq!["----Printing hash:---"@] + hash.map_values(|e: (Seq<char>, Seq<char>)| entry_line(e))
}

/// Renders a description for a log, one text for each line.
pub fn print_hashmap(hash: Dict<String>) -> (lines: Vec<String>)
    ensures
        views(lines@) == hashmap_lines(hash@),
{
    let mut lines: Vec<String> = Vec::new();
    lines.push(String::from_str("----Printing hash:---"));
    let n: usize = hash.len();
    let mut i: usize = 0;
    proof {
        assert(views(lines@) =~= hashmap_lines(hash@.take(0)));
    }
    while i < n
        invariant
            i <= n,
            n == hash@.len(),
            views(lines@) == hashmap_lines(hash@.take(i as int)),
        decreases n - i,
    {
        let mut line: String = String::from_str("[");
        line.append(hash.key_at(i).as_str());
        line.append("]:");
        line.append(hash.value_at(i).as_str());
        line.append("---");
        proof {
            assert(line@ == entry_line(hash@[i as int]));
            assert(views(lines@.push(line)) =~= views(lines@).push(line@));
            assert(hashmap_lines(hash@.take(i + 1)) =~= hashmap_lines(hash@.take(i as int)).push(
                entry_line(hash@[i as int]),
            ));
        }
        lines.push(line);
        i += 1;
    }
    proof {
        assert(hash@.take(n as int) =~= hash@);
    }
    lines
}

/// The attributes in one line: for each, its key, a colon and its value,
/// with nothing between one attribute and the next.
pub open spec fn attribute_listing(attr: Seq<(Seq<char>, i32)>) -> Seq<char>
    decreases attr.len(),
{
    if attr.len() == 0 {
        Seq::empty()
    } else {
        attribute_listing(attr.drop_last()) + attr.last().0 + ":"@ + decimal(attr.last().1 as int)
    }
}

/// Adds the listing of the attributes to the end of a text.
fn append_listing(message: &mut String, attr: &Dict<i32>)
    ensures
        final(message)@ == old(message)@ + attribute_listing(attr@),
{
    let n: usize = attr.len();
    let mut i: usize = 0;
    proof {
        assert(attr@.take(0) =~= Seq::empty());
        assert(message@ =~= old(message)@ + attribute_listing(attr@.take(0)));
    }
    while i < n
        invariant
            i <= n,
            n == attr@.len(),
            message@ == old(message)@ + attribute_listing(attr@.take(i as int)),
        decreases n - i,
    {
        let value: String = to_decimal(*attr.value_at(i));
        proof {
            let next = attr@.take(i + 1);
            assert(next.drop_last() =~= attr@.take(i as int));
            assert(next.last() == attr@[i as int]);
            assert(old(message)@ + attribute_listing(next) =~= old(message)@ + attribute_listing(
                attr@.take(i as int),
            ) + attr@[i as int].0 + ":"@ + decimal(attr@[i as int].1 as int));
        }
        message.append(attr.key_at(i).as_str());
        message.append(":");
        message.append(value.as_str());
        i += 1;
    }
    proof {
        assert(attr@.take(n as int) =~= attr@);
    }
}

/// The stages of the dialogue that creates a character.
#[derive(Copy, Clone, Debug, PartialEq, Eq, Structural)]
pub enum CreationState {
    New,
    Race,
    Gender,
    Type,
    Selection,
    Done,
}

/// What a [`CharCreator`] holds, as plain text and numbers.
pub struct CreatorView {
    pub username: Seq<char>,
    pub character: CharacterView,
    pub state: CreationState,
    pub return_msg: Seq<char>,
}

/// The dialogue that creates a character: whose character it is, what is
/// known of the character so far, the stage that the dialogue is at, and
/// the reply to the last line of input.
pub struct CharCreator {
    pub username: String,
    pub character: Character,
    pub state: CreationState,
    pub return_msg: String,
}

impl View for CharCreator {
    type V = CreatorView;

    open spec fn view(&self) -> CreatorView {
        CreatorView {
            username: self.username@,
            character: self.character@,
            state: self.state,
            return_msg: self.return_msg@,
        }
    }
}

/// The attributes with each value in decimal notation.
pub open spec fn attribute_columns(attr: Seq<(Seq<char>, i32)>) -> Seq<(Seq<char>, Seq<char>)> {
    attr.map_values(|e: (Seq<char>, i32)| (e.0, decimal(e.1 as int)))
}

/// The request that stores a finished character: its description, then
/// its attributes in decimal notation, under the owner's name.
pub open spec fn character_record(character: CharacterView) -> InsertRequestView {
    InsertRequestView {
        table: "player_char_info"@,
        key: character.username,
        data: character.info + attribute_columns(character.attr),
    }
}

/// Describes a character as a record for the store, under the name of its
/// owner.
pub fn save_character(owner: &str, character: &Character) -> (request: InsertRequest)
    ensures
        request@ == character_record(
            character_of(owner@, character.info@, character.attr@),
        ),
{
    let mut data: Vec<DataColumn> = Vec::new();
    let n: usize = character.info.len();
    let mut i: usize = 0;
    proof {
        assert(columns(data@) =~= character.info@.take(0));
    }
    while i < n
        invariant
            i <= n,
            n == character.info@.len(),
            columns(data@) == character.info@.take(i as int),
        decreases n - i,
    {
        let column = DataColumn::new(
            character.info.key_at(i).clone(),
            character.info.value_at(i).clone(),
        );
        proof {
            assert(column@ == character.info@[i as int]);
            assert(columns(data@.push(column)) =~= columns(data@).push(column@));
            assert(character.info@.take(i + 1) =~= character.info@.take(i as int).push(
                character.info@[i as int],
            ));
        }
        data.push(column);
        i += 1;
    }
    let m: usize = character.attr.len();
    let mut j: usize = 0;
    let ghost numbers = attribute_columns(character.attr@);
    proof {
        assert(character.info@.take(n as int) =~= character.info@);
        assert(columns(data@) =~= character.info@ + numbers.take(0));
    }
    while j < m
        invariant
            j <= m,
            m == character.attr@.len(),
            n == character.info@.len(),
            numbers == attribute_columns(character.attr@),
            columns(data@) == character.info@ + numbers.take(j as int),
        decreases m - j,
    {
        let column = DataColumn::new(
            character.attr.key_at(j).clone(),
            to_decimal(*character.attr.value_at(j)),
        );
        proof {
            assert(column@ == numbers[j as int]);
            assert(columns(data@.push(column)) =~= columns(data@).push(column@));
            assert(character.info@ + numbers.take(j + 1) =~= (character.info@ + numbers.take(
                j as int,
            )).push(numbers[j as int]));
        }
        data.push(column);
        j += 1;
    }
    proof {
        assert(numbers.take(m as int) =~= numbers);
    }
    InsertRequest {
        table: String::from_str("player_char_info"),
        key: String::from_str(owner),
        data,
    }
}

/// The race that a description records under `race`, as a number from 1 to
/// 4, or 0 where it records none.
pub open spec fn race_of(info: Seq<(Seq<char>, Seq<char>)>) -> int {
    match lookup(info, "race"@) {
        Some(text) => selection_in(1, 4, text),
        None => 0,
    }
}

/// The race by whose weights the attributes are generated when the type
/// `selection` is confirmed: the race that the description records, and
/// where it records none of the four, the number of the type itself.
pub open spec fn weighted_race(info: Seq<(Seq<char>, Seq<char>)>, selection: int) -> int {
    if 1 <= race_of(info) <= 4 {
        race_of(info)
    } else {
        selection
    }
}

/// A dialogue at the given stage, with a character that has the given
/// description and attributes and nothing else.
pub open spec fn creator_at(
    username: Seq<char>,
    info: Seq<(Seq<char>, Seq<char>)>,
    attr: Seq<(Seq<char>, i32)>,
    state: CreationState,
    return_msg: Seq<char>,
) -> CreatorView {
    CreatorView { username, character: character_of(username, info, attr), state, return_msg }
}

/// One step of the dialogue: what it has become after the line `cmd`,
/// where `stored` says whether the record that the line asks to store was
/// stored.
///
/// - `New` asks for the race, whatever the line says.
/// - `Race` starts the character afresh. A number from 1 to 4 is recorded
///   as the race, and the dialogue asks for the gender. Anything else
///   asks for the race again.
/// - `Gender` records `m`, `f` or `u` and asks for the type. Anything
///   else asks for the gender again.
/// - `Type` records a number from 1 to 4, generates the attributes by the
///   weights of [`weighted_race`], and shows them for confirmation.
///   Anything else asks for the type again.
/// - `Selection` goes back to the type on anything but `y` or `yes`. On
///   `y` or `yes` the character is to be stored, and what comes next
///   depends on how the store went, as [`creation_after_store`] says:
///   `Done` where the character was stored, and `Selection` still, with the
///   failure reported, where not.
/// - `Done` stays as it is and says nothing.
pub open spec fn creation_step(cmd: Seq<char>, data: CreatorView, stored: bool) -> CreatorView {
    let name = data.username;
    let info = data.character.info;
    let attr = data.character.attr;
    match data.state {
        CreationState::New => creator_at(name, info, attr, CreationState::Race, RACESELECTION@),
        CreationState::Race => {
            let selection = selection_in(1, 4, cmd);
            if selection > 0 {
                creator_at(
                    name,
                    put(initial_info(), "race"@, decimal(selection)),
                    initial_attr(),
                    CreationState::Gender,
                    GENDERSELECTION@,
                )
            } else {
                creator_at(
                    name,
                    initial_info(),
                    initial_attr(),
                    CreationState::Race,
                    RACESELECTION@,
                )
            }
        },
        CreationState::Gender => {
            if is_choice("m:f:u"@, cmd) {
                creator_at(
                    name,
                    put(info, "gender"@, trimmed(cmd)),
                    attr,
                    CreationState::Type,
                    TYPESELECTION@,
                )
            } else {
                creator_at(name, info, attr, CreationState::Gender, GENDERSELECTION@)
            }
        },
        CreationState::Type => {
            let selection = selection_in(0, 4, cmd);
            if selection > 0 {
                let generated = weightings(weighted_race(info, selection));
                creator_at(
                    name,
                    put(info, "type"@, decimal(selection)),
                    generated,
                    CreationState::Selection,
                    ATTRSELECTION@ + "\n"@ + attribute_listing(generated),
                )
            } else {
                creator_at(name, info, attr, CreationState::Type, TYPESELECTION@)
            }
        },
        CreationState::Selection => {
            if is_yes(cmd) {
                creation_after_store(data, stored)
            } else {
                creator_at(name, info, attr, CreationState::Type, TYPESELECTION@)
            }
        },
        CreationState::Done => creator_at(name, info, attr, CreationState::Done, Seq::empty()),
    }
}

/// The record that a line asks to store: the finished character, where
/// the line confirms it, and nothing anywhere else. The caller is to store
/// it before the step is taken, and to tell the step how that went.
pub open spec fn creation_saves(cmd: Seq<char>, data: CreatorView) -> Option<InsertRequestView> {
    if data.state == CreationState::Selection && is_yes(cmd) {
        Some(
            character_record(
                character_of(data.username, data.character.info, data.character.attr),
            ),
        )
    } else {
        None
    }
}

/// The dialogue after a character was confirmed and the store was asked
/// to store it. A character that was stored is `Done`, and the player is
/// told so. One that could not be stored is not: the dialogue stays at
/// `Selection`, where the player can confirm once more, and the player is
/// told of the failure. At any other stage nothing is asked of the store,
/// and the dialogue stays as it is and says nothing.
pub open spec fn creation_after_store(data: CreatorView, stored: bool) -> CreatorView {
    let name = data.username;
    let info = data.character.info;
    let attr = data.character.attr;
    if data.state == CreationState::Selection {
        if stored {
            creator_at(name, info, attr, CreationState::Done, SUCCESS@)
        } else {
            creator_at(name, info, attr, CreationState::Selection, SAVE_FAILED@)
        }
    } else {
        creator_at(name, info, attr, data.state, Seq::empty())
    }
}

/// A character is finished only once it is stored. A step arrives at
/// `Done` from another stage only where the line confirmed the character
/// and the character was stored. A failed store leaves the character as it
/// is, keeps the dialogue at `Selection` and tells the player. How a store
/// went is read at no other step.
pub proof fn done_means_stored(cmd: Seq<char>, data: CreatorView, stored: bool)
    ensures
        creation_step(cmd, data, stored).state == CreationState::Done ==> data.state
            == CreationState::Done || (stored && creation_saves(cmd, data) is Some),
        creation_saves(cmd, data) is None ==> creation_step(cmd, data, stored) == creation_step(
            cmd,
            data,
            !stored,
        ),
        creation_saves(cmd, data) is Some ==> {
            let after = creation_step(cmd, data, stored);
            &&& creation_saves(cmd, data) == Some(character_record(after.character))
            &&& stored ==> after.state == CreationState::Done && after.return_msg == SUCCESS@
            &&& !stored ==> after.state == CreationState::Selection && after.return_msg
                == SAVE_FAILED@
            &&& after.character.info == data.character.info
            &&& after.character.attr == data.character.attr
        },
{
}

/// A line that selects nothing is a retry. At `Race` and at `Type` it
/// leaves the dialogue at its stage and repeats that stage's prompt, and a
/// second such line changes nothing more.
pub proof fn retry_is_idempotent(
    cmd: Seq<char>,
    again: Seq<char>,
    data: CreatorView,
    stored: bool,
)
    requires
        (data.state == CreationState::Race && selection_in(1, 4, cmd) <= 0 && selection_in(
            1,
            4,
            again,
        ) <= 0) || (data.state == CreationState::Type && selection_in(0, 4, cmd) <= 0
            && selection_in(0, 4, again) <= 0),
    ensures
        creation_step(cmd, data, stored).state == data.state,
        data.state == CreationState::Race ==> creation_step(cmd, data, stored).return_msg
            == RACESELECTION@,
        data.state == CreationState::Type ==> creation_step(cmd, data, stored).return_msg
            == TYPESELECTION@,
        creation_saves(cmd, data) is None,
        creation_step(again, creation_step(cmd, data, stored), stored) == creation_step(
            cmd,
            data,
            stored,
        ),
{
}

/// Confirming a type generates the attributes afresh, whatever attributes
/// the character had before and whatever its description records: they
/// are one entry for each of `str`, `agi`, `int` and `charm` and nothing
/// else, none of them negative. The type is recorded in decimal notation.
pub proof fn generated_attributes_are_the_weighted_keys(
    cmd: Seq<char>,
    data: CreatorView,
    stored: bool,
)
    requires
        data.state == CreationState::Type,
        selection_in(0, 4, cmd) > 0,
    ensures
        creation_step(cmd, data, stored).state == CreationState::Selection,
        ({
            let attr = creation_step(cmd, data, stored).character.attr;
            &&& attr == weightings(
                weighted_race(data.character.info, selection_in(0, 4, cmd)),
            )
            &&& attr.len() == 4
            &&& keys(attr) == seq!["str"@, "agi"@, "int"@, "charm"@]
            &&& keys(attr).no_duplicates()
            &&& forall|i: int| 0 <= i < attr.len() ==> (#[trigger] attr[i]).1 >= 0
        }),
        lookup(creation_step(cmd, data, stored).character.info, "type"@) == Some(
            decimal(selection_in(0, 4, cmd)),
        ),
{
    weightings_cover_the_four_keys(weighted_race(data.character.info, selection_in(0, 4, cmd)));
    put_is_found(data.character.info, "type"@, decimal(selection_in(0, 4, cmd)));
}

/// The decimal notation of a single digit has no whitespace to trim.
proof fn digit_is_tight(n: int)
    requires
        0 <= n < 10,
    ensures
        trimmed(decimal(n)) == decimal(n),
{
    let s = decimal(n);
    assert(s =~= seq![crate::decimal::digit_char(n)]);
    assert(s.len() == 1);
    assert(!crate::text::is_whitespace(s[0]));
    assert(s.last() == s[0]);
    assert(trim_start(s) == s);
    assert(trim_end(s) == s);
}

impl CharCreator {
    /// A dialogue for nobody yet, about to ask for the race.
    pub fn new() -> (c: CharCreator)
        ensures
            c@ == creator_at(
                Seq::empty(),
                Seq::empty(),
                Seq::empty(),
                CreationState::Race,
                Seq::empty(),
            ),
    {
        CharCreator {
            username: String::new(),
            character: Character::new(),
            state: CreationState::Race,
            return_msg: String::new(),
        }
    }

    /// A dialogue made of its parts.
    pub fn new_from_data(
        user_name: String,
        char: Character,
        state: CreationState,
        msg: String,
    ) -> (c: CharCreator)
        ensures
            c@ == (CreatorView {
                username: user_name@,
                character: char@,
                state: state,
                return_msg: msg@,
            }),
    {
        CharCreator { username: user_name, character: char, state: state, return_msg: msg }
    }

    /// Reads a line of input as a number from `min` to `max`.
    pub fn is_input_valid(min: i32, max: i32, input: String) -> (selection: i32)
        ensures
            selection == selection_in(min as int, max as int, input@),
    {
        let text: String = trim(input.as_str());
        let selection: i32 = match parse_i32(text.as_str()) {
            Some(num) => num,
            None => -1,
        };
        if selection >= min && selection <= max {
            selection
        } else {
            0
        }
    }

    /// Whether a line of input is one of the choices in `selection`, which
    /// are separated by `:`.
    pub fn is_string_valid(selection: String, input: String) -> (valid: bool)
        ensures
            valid == is_choice(selection@, input@),
    {
        let parts: Vec<String> = split_on(selection.as_str(), ':');
        let wanted: String = trim(input.as_str());
        let mut i: usize = 0;
        while i < parts.len()
            invariant
                i <= parts.len(),
                views(parts@) == split(selection@, ':'),
                wanted@ == trimmed(input@),
                forall|j: int| 0 <= j < i ==> views(parts@)[j] != wanted@,
            decreases parts.len() - i,
        {
            if parts[i] == wanted {
                proof {
                    assert(views(parts@)[i as int] == wanted@);
                }
                return true;
            }
            i += 1;
        }
        false
    }

    /// The record that the caller has to store before it hands the line
    /// to [`CharCreator::process_commands`]: the finished character, if the
    /// line confirms it.
    pub fn character_to_store(cmd: &str, data: &CharCreator) -> (request: Option<InsertRequest>)
        ensures
            match request {
                Some(r) => creation_saves(cmd@, data@) == Some(r@),
                None => creation_saves(cmd@, data@) is None,
            },
    {
        match data.state {
            CreationState::Selection => {
                if confirms(cmd) {
                    Some(save_character(data.username.as_str(), &data.character))
                } else {
                    None
                }
            },
            _ => None,
        }
    }

    /// Takes the dialogue one step further with a line of input.
    ///
    /// `stored` says whether the record that
    /// [`CharCreator::character_to_store`] gives for this line was stored;
    /// it is read where the line confirms the character and nowhere else.
    pub fn process_commands(cmd: String, data: CharCreator, stored: bool) -> (r: CharCreator)
        ensures
            r@ == creation_step(cmd@, data@, stored),
    {
        let CharCreator { username, character, state, return_msg: _ } = data;
        let Character { username: _, info, attr, items: _, equips: _, skills: _, history: _ } =
            character;
        let mut char_info: Dict<String> = info;
        let mut char_attributes: Dict<i32> = attr;
        let mut creation_state: CreationState = state;
        let mut message: String = String::new();
        match state {
            CreationState::New => {
                message = String::from_str(RACESELECTION);
                creation_state = CreationState::Race;
            },
            CreationState::Race => {
                let selection: i32 = CharCreator::is_input_valid(1, 4, cmd);
                char_info = initialize_info();
                char_attributes = initialize_attr();
                if selection > 0 {
                    proof {
                        digit_is_tight(selection as int);
                    }
                    update_info(&mut char_info, String::from_str("race"), to_decimal(selection));
                    message = String::from_str(GENDERSELECTION);
                    creation_state = CreationState::Gender;
                } else {
                    message = String::from_str(RACESELECTION);
                }
            },
            CreationState::Gender => {
                if CharCreator::is_string_valid(String::from_str("m:f:u"), cmd.clone()) {
                    message = String::from_str(TYPESELECTION);
                    update_info(&mut char_info, String::from_str("gender"), cmd);
                    creation_state = CreationState::Type;
                } else {
                    message = String::from_str(GENDERSELECTION);
                }
            },
            CreationState::Type => {
                let selection: i32 = CharCreator::is_input_valid(0, 4, cmd);
                if selection > 0 {
                    proof {
                        digit_is_tight(selection as int);
                    }
                    let recorded: i32 = match char_info.get("race") {
                        Some(text) => CharCreator::is_input_valid(1, 4, text.clone()),
                        None => 0,
                    };
                    let race: i32 = if 1 <= recorded && recorded <= 4 {
                        recorded
                    } else {
                        selection
                    };
                    update_info(&mut char_info, String::from_str("type"), to_decimal(selection));
                    char_attributes = initialize_attr_with_bias(15, get_weightings(race));
                    message = String::from_str(ATTRSELECTION);
                    message.append("\n");
                    append_listing(&mut message, &char_attributes);
                    creation_state = CreationState::Selection;
                } else {
                    message = String::from_str(TYPESELECTION);
                }
            },
            CreationState::Selection => {
                if confirms(cmd.as_str()) {
                    let character = Character::new_from_data(
                        username.clone(),
                        char_info,
                        char_attributes,
                    );
                    return character_stored(
                        CharCreator::new_from_data(username, character, state, message),
                        stored,
                    );
                } else {
                    message = String::from_str(TYPESELECTION);
                    creation_state = CreationState::Type;
                }
            },
            CreationState::Done => {},
        }
        let character = Character::new_from_data(username.clone(), char_info, char_attributes);
        CharCreator::new_from_data(username, character, creation_state, message)
    }
}

/// Takes in what came of storing the character: whether it was stored.
/// Gives the dialogue after it, with the reply to the player.
pub fn character_stored(data: CharCreator, stored: bool) -> (c: CharCreator)
    ensures
        c@ == creation_after_store(data@, stored),
{
    let CharCreator { username, character, state, return_msg: _ } = data;
    let Character { username: _, info, attr, items: _, equips: _, skills: _, history: _ } =
        character;
    let mut creation_state: CreationState = state;
    let mut message: String = String::new();
    match state {
        CreationState::Selection => {
            if stored {
                message = String::from_str(SUCCESS);
                creation_state = CreationState::Done;
            } else {
                message = String::from_str(SAVE_FAILED);
            }
        },
        _ => {},
    }
    let character = Character::new_from_data(username.clone(), info, attr);
    CharCreator::new_from_data(username, character, creation_state, message)
}

} // verus!
