//! JSON values, as far as a tool result is read, and JSON text, as far as a
//! payload is written.

use vstd::prelude::*;
use vstd::string::StringExecFns;

verus! {

/// A JSON value. A number is kept as it was written.
#[derive(Debug)]
pub enum Json {
    Null,
    Bool(bool),
    Number(String),
    Text(String),
    Array(Vec<Json>),
    Object(Vec<(String, Json)>),
}

/// The value of the first member with the given name.
pub open spec fn lookup(members: Seq<(String, Json)>, key: Seq<char>) -> Option<Json>
    decreases members.len(),
{
    if members.len() == 0 {
        None
    } else if members[0].0@ == key {
        Some(members[0].1)
    } else {
        lookup(members.drop_first(), key)
    }
}

/// No name occurs twice among these members.
pub open spec fn distinct_members(members: Seq<(String, Json)>) -> bool {
    forall|i: int, j: int|
        0 <= i < j < members.len() ==> (#[trigger] members[i]).0@ != (#[trigger] members[j]).0@
}

impl Json {
    /// What holds of every value that was read from JSON text into maps: the
    /// names in an object are distinct, here and further down.
    pub open spec fn wf(self) -> bool
        decreases self,
    {
        match self {
            Json::Array(items) => forall|i: int|
                0 <= i < items@.len() ==> (#[trigger] items@[i]).wf(),
            Json::Object(members) => {
                &&& distinct_members(members@)
                &&& forall|i: int| 0 <= i < members@.len() ==> (#[trigger] members@[i]).1.wf()
            },
            _ => true,
        }
    }

    /// The member of an object with the given name, if this is an object and
    /// has such a member.
    pub open spec fn member(self, key: Seq<char>) -> Option<Json> {
        match self {
            Json::Object(members) => lookup(members@, key),
            _ => None,
        }
    }

    /// The member with the given name.
    pub fn get(&self, key: &str) -> (r: Option<&Json>)
        ensures
            r is Some <==> self.member(key@) is Some,
            r is Some ==> *r->0 == self.member(key@)->0,
    {
        match self {
            Json::Object(members) => {
                let wanted: String = key.to_owned();
                assert(members@.skip(0) =~= members@);
                for i in 0..members.len()
                    invariant
                        *self == Json::Object(*members),
                        wanted@ == key@,
                        lookup(members@, key@) == lookup(members@.skip(i as int), key@),
                {
                    assert(members@.skip(i as int).drop_first() =~= members@.skip(i + 1));
                    if members[i].0 == wanted {
                        return Some(&members[i].1);
                    }
                }
                assert(members@.skip(members@.len() as int) =~= Seq::<(String, Json)>::empty());
                None
            },
            _ => None,
        }
    }

    /// The truth value, if this is one.
    pub fn as_bool(&self) -> (r: Option<bool>)
        ensures
            r == match *self {
                Json::Bool(b) => Some(b),
                _ => None,
            },
    {
        match self {
            Json::Bool(b) => Some(*b),
            _ => None,
        }
    }

    /// The items, if this is an array.
    pub fn as_array(&self) -> (r: Option<&Vec<Json>>)
        ensures
            r is Some <==> *self is Array,
            r is Some ==> *r->0 == self->Array_0,
    {
        match self {
            Json::Array(items) => Some(items),
            _ => None,
        }
    }

    /// The characters, if this is text.
    pub fn as_str(&self) -> (r: Option<&str>)
        ensures
            r is Some <==> *self is Text,
            r is Some ==> r->0@ == self->Text_0@,
    {
        match self {
            Json::Text(s) => Some(s.as_str()),
            _ => None,
        }
    }
}

proof fn lemma_lookup(members: Seq<(String, Json)>, i: int)
    requires
        distinct_members(members),
        0 <= i < members.len(),
    ensures
        lookup(members, members[i].0@) == Some(members[i].1),
    decreases members.len(),
{
    if i > 0 {
        let rest = members.drop_first();
        assert(members[0].0@ != members[i].0@);
        assert forall|a: int, b: int| 0 <= a < b < rest.len() implies (#[trigger] rest[a]).0@ != (
        #[trigger] rest[b]).0@ by {
            assert(rest[a] == members[a + 1]);
            assert(rest[b] == members[b + 1]);
        }
        assert(rest[i - 1] == members[i]);
        lemma_lookup(rest, i - 1);
    }
}

/// Each member of an object is found by its name, wherever it stands.
pub proof fn law_every_member_is_found(object: Json, i: int)
    requires
        object.wf(),
        object is Object,
        0 <= i < object->Object_0@.len(),
    ensures
        object.member(object->Object_0@[i].0@) == Some(object->Object_0@[i].1),
{
    lemma_lookup(object->Object_0@, i);
}

/// The digit `d` as a lower-case hexadecimal character.
pub open spec fn digit(d: int) -> char
    recommends
        0 <= d < 16,
{
    if d < 10 {
        (48 + d) as char
    } else {
        (87 + d) as char
    }
}

/// `n` in decimal, without leading zeros.
pub open spec fn decimal(n: nat) -> Seq<char>
    decreases n,
{
    if n < 10 {
        seq![digit(n as int)]
    } else {
        decimal(n / 10).push(digit((n % 10) as int))
    }
}

/// How a character stands inside a JSON string: the quote, the backslash and
/// the control characters are escaped, everything else stands for itself.
pub open spec fn escaped(c: char) -> Seq<char> {
    if c == '"' {
        seq!['\\', '"']
    } else if c == '\\' {
        seq!['\\', '\\']
    } else if c as u32 == 0x08 {
        seq!['\\', 'b']
    } else if c as u32 == 0x09 {
        seq!['\\', 't']
    } else if c as u32 == 0x0a {
        seq!['\\', 'n']
    } else if c as u32 == 0x0c {
        seq!['\\', 'f']
    } else if c as u32 == 0x0d {
        seq!['\\', 'r']
    } else if (c as u32) < 0x20 {
        seq!['\\', 'u', '0', '0', digit(c as int / 16), digit(c as int % 16)]
    } else {
        seq![c]
    }
}

pub open spec fn escaped_all(s: Seq<char>) -> Seq<char>
    decreases s.len(),
{
    if s.len() == 0 {
        Seq::empty()
    } else {
        escaped_all(s.drop_last()) + escaped(s.last())
    }
}

/// `s` as a JSON string, quotes included.
pub open spec fn quoted(s: Seq<char>) -> Seq<char> {
    seq!['"'] + escaped_all(s) + seq!['"']
}

/// `serde_json::to_string` on a string slice. Writing a string into memory
/// cannot fail, so there is a result; it is the string between quotes, with
/// the quote, the backslash and the control characters escaped.
#[verifier::external_body]
fn text_to_json(s: &str) -> (r: Option<String>)
    ensures
        r is Some,
        r->0@ == quoted(s@),
{
    serde_json::to_string(s).ok()
}

/// `serde_json::to_string` on a `u64`. Writing a number into memory cannot
/// fail, so there is a result; it is the number in decimal.
#[verifier::external_body]
fn number_to_json(n: u64) -> (r: Option<String>)
    ensures
        r is Some,
        r->0@ == decimal(n as nat),
{
    serde_json::to_string(&n).ok()
}

/// A member value that a payload can hold.
#[derive(Debug)]
pub enum Scalar {
    Null,
    Number(u64),
    Text(String),
}

/// What a [`Scalar`] holds, as a mathematical value.
pub enum ScalarView {
    Null,
    Number(u64),
    Text(Seq<char>),
}

impl View for Scalar {
    type V = ScalarView;

    open spec fn view(&self) -> ScalarView {
        match self {
            Scalar::Null => ScalarView::Null,
            Scalar::Number(n) => ScalarView::Number(*n),
            Scalar::Text(s) => ScalarView::Text(s@),
        }
    }
}

impl ScalarView {
    /// The value as JSON text.
    pub open spec fn rendered(self) -> Seq<char> {
        match self {
            ScalarView::Null => "null"@,
            ScalarView::Number(n) => decimal(n as nat),
            ScalarView::Text(s) => quoted(s),
        }
    }
}

impl Scalar {
    /// The value as JSON text.
    pub fn render(&self) -> (r: String)
        ensures
            r@ == self@.rendered(),
    {
        match self {
            Scalar::Null => "null".to_owned(),
            Scalar::Number(n) => number_to_json(*n).unwrap(),
            Scalar::Text(s) => text_to_json(s.as_str()).unwrap(),
        }
    }
}

/// The members of an object as they stand in its text, one after the other:
/// each name in quotes, a colon, the value's text, with a comma between two.
pub open spec fn object_body(members: Seq<(Seq<char>, ScalarView)>) -> Seq<char>
    decreases members.len(),
{
    if members.len() == 0 {
        Seq::empty()
    } else {
        let (name, value) = members.last();
        let before = if members.len() == 1 {
            Seq::empty()
        } else {
            object_body(members.drop_last()) + ","@
        };
        before + quoted(name) + ":"@ + value.rendered()
    }
}

/// An object with the given members, in order, as compact JSON text.
pub open spec fn object_text(members: Seq<(Seq<char>, ScalarView)>) -> Seq<char> {
    "{"@ + object_body(members) + "}"@
}

pub open spec fn member_views(members: Seq<(&'static str, Scalar)>) -> Seq<
    (Seq<char>, ScalarView),
> {
    members.map_values(|m: (&'static str, Scalar)| (m.0@, m.1@))
}

/// Writes an object with the given members as compact JSON text.
pub fn render_object(members: &Vec<(&'static str, Scalar)>) -> (r: String)
    ensures
        r@ == object_text(member_views(members@)),
{
    let ghost views = member_views(members@);
    let mut out: String = "{".to_owned();
    assert(views.take(0) =~= Seq::<(Seq<char>, ScalarView)>::empty());
    assert(out@ =~= "{"@ + object_body(views.take(0)));
    for i in 0..members.len()
        invariant
            views == member_views(members@),
            out@ == "{"@ + object_body(views.take(i as int)),
    {
        let ghost before = out@;
        if i > 0 {
            out.append(",");
        }
        out.append(text_to_json(members[i].0).unwrap().as_str());
        out.append(":");
        out.append(members[i].1.render().as_str());
        proof {
            let now = views.take(i + 1);
            assert(now.drop_last() =~= views.take(i as int));
            assert(now.last() == (members@[i as int].0@, members@[i as int].1@));
            assert(out@ =~= "{"@ + object_body(now));
        }
    }
    assert(views.take(members@.len() as int) =~= views);
    out.append("}");
    out
}

} // verus!
