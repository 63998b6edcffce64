//! Flattening of nested records into one level of keys, and the formatting
//! of those keys.

use vstd::prelude::*;

verus! {

broadcast use vstd::string::group_string_axioms;

/// Whether a character has the Unicode property `Lowercase`.
pub uninterp spec fn unicode_lowercase(c: char) -> bool;

/// Whether a character has the Unicode property `Uppercase`.
pub uninterp spec fn unicode_uppercase(c: char) -> bool;

/// Whether a character is in one of the Unicode number categories.
pub uninterp spec fn unicode_numeric(c: char) -> bool;

/// The lowercase mapping of a character: one character or more.
pub uninterp spec fn unicode_lower(c: char) -> Seq<char>;

pub assume_specification[ char::is_lowercase ](c: char) -> (b: bool)
    ensures
        b == unicode_lowercase(c),
;

pub assume_specification[ char::is_uppercase ](c: char) -> (b: bool)
    ensures
        b == unicode_uppercase(c),
;

pub assume_specification[ char::is_numeric ](c: char) -> (b: bool)
    ensures
        b == unicode_numeric(c),
;

pub assume_specification[ String::push ](s: &mut String, ch: char)
    ensures
        final(s)@ == old(s)@.push(ch),
;

/// `char::to_lowercase`, with the characters it yields collected in a
/// string. The mapping of a character is never empty.
#[verifier::external_body]
fn lowercase(c: char) -> (lower: String)
    ensures
        lower@ == unicode_lower(c),
        lower@.len() >= 1,
{
    c.to_lowercase().to_string()
}

/// What is done with one character of a key.
#[derive(Debug, Clone, Copy, PartialEq, Eq, Structural)]
pub enum CharAction {
    /// The character stays.
    Keep,
    /// The character gives way to the first of its lowercase mapping.
    Lower,
    /// The character gives way to an underscore.
    Underscore,
}

/// What is done with a character of which Unicode says this: a lowercase
/// letter or a number stays, else an uppercase letter is lowered, and
/// anything else becomes an underscore.
pub open spec fn action_for(lowercase: bool, numeric: bool, uppercase: bool) -> CharAction {
    if lowercase || numeric {
        CharAction::Keep
    } else if uppercase {
        CharAction::Lower
    } else {
        CharAction::Underscore
    }
}

/// Decides what is done with a character, given what Unicode says of it.
pub fn char_action(lowercase: bool, numeric: bool, uppercase: bool) -> (action: CharAction)
    ensures
        action == action_for(lowercase, numeric, uppercase),
{
    if lowercase || numeric {
        CharAction::Keep
    } else if uppercase {
        CharAction::Lower
    } else {
        CharAction::Underscore
    }
}

/// What a character of a key becomes.
pub open spec fn format_char(c: char) -> char {
    match action_for(unicode_lowercase(c), unicode_numeric(c), unicode_uppercase(c)) {
        CharAction::Keep => c,
        CharAction::Lower => unicode_lower(c)[0],
        CharAction::Underscore => '_',
    }
}

/// Whether a character of a key is kept as it is.
pub open spec fn key_char(c: char) -> bool {
    unicode_lowercase(c) || unicode_numeric(c) || c == '_'
}

/// Whether every character of a key is kept as it is.
pub open spec fn is_formatted(key: Seq<char>) -> bool {
    forall|i: int| 0 <= i < key.len() ==> key_char(#[trigger] key[i])
}

/// The formatted key: the key itself where all its characters are kept,
/// else each character replaced by what it becomes.
pub open spec fn formatted_key(key: Seq<char>) -> Seq<char> {
    if is_formatted(key) {
        key
    } else {
        key.map_values(|c: char| format_char(c))
    }
}

/// Makes every character of a key lowercase alphanumeric or an underscore.
pub fn format_key(key: &str) -> (formatted: String)
    ensures
        formatted@ == formatted_key(key@),
{
    let mut clean = true;
    for c in it: key.chars()
        invariant
            it.seq() == key@,
            clean == forall|i: int| 0 <= i < it.index() ==> key_char(#[trigger] key@[i]),
    {
        if !(c.is_lowercase() || c.is_numeric() || c == '_') {
            clean = false;
        }
    }
    if clean {
        return key.to_owned();
    }
    let mut formatted = String::new();
    for c in it: key.chars()
        invariant
            it.seq() == key@,
            formatted@ == key@.take(it.index() as int).map_values(|c: char| format_char(c)),
    {
        let mapped = match char_action(c.is_lowercase(), c.is_numeric(), c.is_uppercase()) {
            CharAction::Keep => c,
            CharAction::Lower => lowercase(c).as_str().get_char(0),
            CharAction::Underscore => '_',
        };
        formatted.push(mapped);
    }
    formatted
}

/// What stands between the keys of a path.
pub const KEY_SEPARATOR: &'static str = "_";

/// A value as far as flattening reads it: its shape and its keys. What a
/// value holds beyond that stays with the caller, who names it by a handle.
pub enum Node {
    /// An object: its members in their order, each a key and a value.
    Object(Vec<(String, Node)>),
    /// An array: nothing for an empty one, else the handle of the text that
    /// stands for the whole array.
    Array(Option<usize>),
    /// Any other value, by its handle.
    Leaf(usize),
}

/// Why a value cannot be flattened.
#[derive(Debug, Clone, Copy, PartialEq, Eq, Structural)]
pub enum FlattenError {
    /// The value at the top is not an object.
    NotAnObject,
}

impl FlattenError {
    pub fn message(&self) -> (text: &'static str)
        ensures
            text@ == "flatten value must be an object"@,
    {
        "flatten value must be an object"
    }
}

/// The path of a member: its formatted key at the top, else the path of its
/// parent, the separator and its formatted key.
pub open spec fn member_path(parent: Seq<char>, key: Seq<char>, top: bool) -> Seq<char> {
    if top {
        formatted_key(key)
    } else {
        parent + KEY_SEPARATOR@ + formatted_key(key)
    }
}

/// The flat entries of a value that stands under the path `parent`, at the
/// top or below it: those of its members for an object, none for an empty
/// array, and one, under the path itself, for any other value.
pub open spec fn flat_value(node: Node, parent: Seq<char>, top: bool) -> Seq<(Seq<char>, usize)>
    decreases node, 0nat,
{
    match node {
        Node::Object(members) => flat_members(members, parent, top, members@.len()),
        Node::Array(None) => Seq::empty(),
        Node::Array(Some(text)) => seq![(parent, text)],
        Node::Leaf(value) => seq![(parent, value)],
    }
}

/// The flat entries of the first `n` members of an object, in their order.
pub open spec fn flat_members(
    members: Vec<(String, Node)>,
    parent: Seq<char>,
    top: bool,
    n: nat,
) -> Seq<(Seq<char>, usize)>
    decreases members, n,
{
    if n == 0 || n > members@.len() {
        Seq::empty()
    } else {
        flat_members(members, parent, top, (n - 1) as nat) + flat_value(
            members@[n - 1].1,
            member_path(parent, members@[n - 1].0@, top),
            false,
        )
    }
}

/// What flattening a value gives: at the top only an object can be
/// flattened.
pub open spec fn flat_at(node: Node, parent: Seq<char>, top: bool) -> Result<
    Seq<(Seq<char>, usize)>,
    FlattenError,
> {
    if top && !(node is Object) {
        Err(FlattenError::NotAnObject)
    } else {
        Ok(flat_value(node, parent, top))
    }
}

/// The entries of a list, each key taken by its characters.
pub open spec fn entries_view(entries: Seq<(String, usize)>) -> Seq<(Seq<char>, usize)> {
    entries.map_values(|e: (String, usize)| (e.0@, e.1))
}

/// What a result of flattening holds, each key taken by its characters.
pub open spec fn flat_view(r: Result<Vec<(String, usize)>, FlattenError>) -> Result<
    Seq<(Seq<char>, usize)>,
    FlattenError,
> {
    match r {
        Ok(entries) => Ok(entries_view(entries@)),
        Err(e) => Err(e),
    }
}

/// Flattens an object: each value that is neither an object nor an empty
/// array gives one entry, under the formatted keys on the way to it joined
/// by the separator. The entries come in the order of the members; where a
/// path comes twice, both entries are there.
///
/// Fails where `to_flatten` is not an object.
pub fn flatten(to_flatten: &Node) -> (r: Result<Vec<(String, usize)>, FlattenError>)
    ensures
        flat_view(r) == flat_at(*to_flatten, Seq::<char>::empty(), true),
{
    let mut flat: Vec<(String, usize)> = Vec::new();
    match flatten_value(to_flatten, String::new(), 0, &mut flat) {
        Ok(()) => Ok(flat),
        Err(e) => Err(e),
    }
}

/// Flattens the passed value (`current`), whose path is `parent_key` and
/// whose depth, counted from 0, is `depth`. The entries are appended to
/// `flattened`.
fn flatten_value(
    current: &Node,
    parent_key: String,
    depth: u32,
    flattened: &mut Vec<(String, usize)>,
) -> (r: Result<(), FlattenError>)
    ensures
        match flat_at(*current, parent_key@, depth == 0) {
            Ok(entries) => r is Ok && entries_view(final(flattened)@) == entries_view(
                old(flattened)@,
            ) + entries,
            Err(e) => r == Err::<(), FlattenError>(e) && final(flattened)@ == old(flattened)@,
        },
    decreases *current, 1nat,
{
    if depth == 0 {
        match current {
            Node::Object(map) => {
                if map.len() == 0 {
                    return Ok(());  // If the top level input object is empty there is nothing to do
                }
            },
            _ => {
                return Err(FlattenError::NotAnObject);
            },
        }
    }
    match current {
        Node::Object(members) => {
            flatten_object(members, parent_key.as_str(), depth, flattened)
        },
        Node::Array(text) => {
            flatten_array(text, parent_key.as_str(), flattened)
        },
        Node::Leaf(value) => {
            flattened.push((parent_key, *value));
            Ok(())
        },
    }
}

/// Flattens the passed object (`current`), whose path is `parent_key` and
/// whose depth, counted from 0, is `depth`. The entries are appended to
/// `flattened`.
fn flatten_object(
    current: &Vec<(String, Node)>,
    parent_key: &str,
    depth: u32,
    flattened: &mut Vec<(String, usize)>,
) -> (r: Result<(), FlattenError>)
    ensures
        r is Ok,
        entries_view(final(flattened)@) == entries_view(old(flattened)@) + flat_members(
            *current,
            parent_key@,
            depth == 0,
            current@.len(),
        ),
    decreases *current, 0nat,
{
    let ghost before = entries_view(flattened@);
    let mut at: usize = 0;
    while at < current.len()
        invariant
            at <= current@.len(),
            entries_view(flattened@) == before + flat_members(
                *current,
                parent_key@,
                depth == 0,
                at as nat,
            ),
        decreases current@.len() - at,
    {
        let k = format_key(current[at].0.as_str());
        let path = if depth > 0 {
            let mut path = parent_key.to_owned();
            path.append(KEY_SEPARATOR);
            path.append(k.as_str());
            path
        } else {
            k
        };
        // the depth only tells the top from the rest, so it may stop counting
        let below: u32 = if depth < u32::MAX {
            depth + 1
        } else {
            depth
        };
        flatten_value(&current[at].1, path, below, flattened)?;
        at += 1;
    }
    Ok(())
}

/// Flattens the passed array, whose path is `parent_key`: an empty array
/// gives nothing, any other one entry, the text that stands for it.
fn flatten_array(
    current: &Option<usize>,
    parent_key: &str,
    flattened: &mut Vec<(String, usize)>,
) -> (r: Result<(), FlattenError>)
    ensures
        r is Ok,
        entries_view(final(flattened)@) == entries_view(old(flattened)@) + flat_value(
            Node::Array(*current),
            parent_key@,
            false,
        ),
{
    match current {
        None => Ok(()),
        Some(text) => {
            let path = parent_key.to_owned();
            flattened.push((path, *text));
            Ok(())
        },
    }
}

} // verus!
