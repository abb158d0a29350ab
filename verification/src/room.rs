//! The room data shape consumed by collaborators, and its canonical wire
//! form: a JSON object with the fields `id`, `title` (a string or `null`),
//! `type` (`"direct"` or `"group"`) and `created`, in that order, without
//! padding.  Encoding and decoding are exact inverses, proved in
//! [`lemma_room_round_trip`].

use vstd::prelude::*;

use crate::error::Error;
use crate::codec::{
    escape_into, escape_seq, expect_lit, parse_string_body, spec_parse_string, strip_lit,
    lemma_expect_strip, lemma_expect_strip_none, lemma_strip_lit_prefix, lemma_parse_escaped,
};

verus! {

/// Whether a room is a one-to-one conversation or a group space.
#[derive(Debug, Clone, Copy, PartialEq, Eq, Structural)]
pub enum RoomType {
    Direct,
    Group,
}

/// A conversational space: identifier, optional display title, kind, and the
/// creation timestamp as ISO-8601 text.
#[derive(Debug, Clone)]
pub struct Room {
    pub id: String,
    pub title: Option<String>,
    pub room_type: RoomType,
    pub created: String,
}

/// The mathematical model of a room: every text field as its character
/// sequence.
#[verifier::ext_equal]
pub ghost struct RoomModel {
    pub id: Seq<char>,
    pub title: Option<Seq<char>>,
    pub room_type: RoomType,
    pub created: Seq<char>,
}

impl View for Room {
    type V = RoomModel;

    open spec fn view(&self) -> RoomModel {
        RoomModel {
            id: self.id@,
            title: match self.title {
                Some(t) => Some(t@),
                None => None,
            },
            room_type: self.room_type,
            created: self.created@,
        }
    }
}

impl PartialEq for Room {
    fn eq(&self, other: &Room) -> (r: bool) {
        let same_title = match (&self.title, &other.title) {
            (Option::None, Option::None) => true,
            (Option::Some(a), Option::Some(b)) => *a == *b,
            _ => false,
        };
        let r = self.id == other.id && same_title && self.room_type == other.room_type
            && self.created == other.created;
        proof {
            if r {
                assert(self@ =~= other@);
            }
        }
        r
    }
}

impl vstd::std_specs::cmp::PartialEqSpecImpl for Room {
    open spec fn obeys_eq_spec() -> bool {
        true
    }

    open spec fn eq_spec(&self, other: &Room) -> bool {
        self@ == other@
    }
}

impl Eq for Room {}

/// The wire form of one string value: quoted, content escaped.
pub open spec fn spec_encode_string(s: Seq<char>) -> Seq<char> {
    seq!['"'] + escape_seq(s) + seq!['"']
}

/// The wire form of the title field value.
pub open spec fn spec_encode_title(t: Option<Seq<char>>) -> Seq<char> {
    match t {
        Some(s) => spec_encode_string(s),
        None => "null"@,
    }
}

/// The wire form of the room type field value.
pub open spec fn spec_encode_room_type(t: RoomType) -> Seq<char> {
    match t {
        RoomType::Direct => "\"direct\""@,
        RoomType::Group => "\"group\""@,
    }
}

/// The canonical wire form of a room.
pub open spec fn spec_encode_room(m: RoomModel) -> Seq<char> {
    "{\"id\":"@ + spec_encode_string(m.id) + ",\"title\":"@ + spec_encode_title(m.title)
        + ",\"type\":"@ + spec_encode_room_type(m.room_type) + ",\"created\":"@
        + spec_encode_string(m.created) + "}"@
}

/// Appends the quoted, escaped wire form of `s` to `out`.
pub(crate) fn encode_string_into(s: &str, out: &mut String)
    ensures
        final(out)@ == old(out)@ + spec_encode_string(s@),
{
    out.append("\"");
    escape_into(s, out);
    out.append("\"");
    proof {
        reveal_strlit("\"");
        assert(out@ =~= old(out)@ + spec_encode_string(s@));
    }
}

/// Encodes a room into its canonical wire form.
pub fn encode_room(room: &Room) -> (r: String)
    ensures
        r@ == spec_encode_room(room@),
{
    let mut out = String::new();
    out.append("{\"id\":");
    encode_string_into(room.id.as_str(), &mut out);
    out.append(",\"title\":");
    match &room.title {
        Option::Some(t) => encode_string_into(t.as_str(), &mut out),
        Option::None => out.append("null"),
    }
    out.append(",\"type\":");
    match room.room_type {
        RoomType::Direct => out.append("\"direct\""),
        RoomType::Group => out.append("\"group\""),
    }
    out.append(",\"created\":");
    encode_string_into(room.created.as_str(), &mut out);
    out.append("}");
    proof {
        assert(out@ =~= spec_encode_room(room@));
    }
    out
}

/// Parses one quoted string value from the front of `s`.
pub open spec fn spec_parse_quoted(s: Seq<char>) -> Option<(Seq<char>, Seq<char>)> {
    match strip_lit(s, "\""@) {
        Some(r) => spec_parse_string(r),
        None => None,
    }
}

/// Parses the title field value: `null` or a quoted string.
pub open spec fn spec_parse_title(s: Seq<char>) -> Option<(Option<Seq<char>>, Seq<char>)> {
    match strip_lit(s, "null"@) {
        Some(r) => Some((None, r)),
        None => match spec_parse_quoted(s) {
            Some(p) => Some((Some(p.0), p.1)),
            None => None,
        },
    }
}

/// Parses the room type field value: `"direct"` or `"group"`.
pub open spec fn spec_parse_room_type(s: Seq<char>) -> Option<(RoomType, Seq<char>)> {
    match strip_lit(s, "\"direct\""@) {
        Some(r) => Some((RoomType::Direct, r)),
        None => match strip_lit(s, "\"group\""@) {
            Some(r) => Some((RoomType::Group, r)),
            None => None,
        },
    }
}

/// Parses one room from the front of `s`: the exact canonical grammar, field
/// order fixed, no padding.
pub open spec fn spec_parse_room(s: Seq<char>) -> Option<(RoomModel, Seq<char>)> {
    match strip_lit(s, "{\"id\":"@) {
        None => None,
        Some(s1) => match spec_parse_quoted(s1) {
            None => None,
            Some((id, s2)) => match strip_lit(s2, ",\"title\":"@) {
                None => None,
                Some(s3) => match spec_parse_title(s3) {
                    None => None,
                    Some((title, s4)) => match strip_lit(s4, ",\"type\":"@) {
                        None => None,
                        Some(s5) => match spec_parse_room_type(s5) {
                            None => None,
                            Some((room_type, s6)) => match strip_lit(s6, ",\"created\":"@) {
                                None => None,
                                Some(s7) => match spec_parse_quoted(s7) {
                                    None => None,
                                    Some((created, s8)) => match strip_lit(s8, "}"@) {
                                        None => None,
                                        Some(s9) => Some(
                                            (RoomModel { id, title, room_type, created }, s9),
                                        ),
                                    },
                                },
                            },
                        },
                    },
                },
            },
        },
    }
}

/// A room in canonical form and nothing else.
pub open spec fn spec_decode_room(s: Seq<char>) -> Option<RoomModel> {
    match spec_parse_room(s) {
        Some(p) => if p.1.len() == 0 {
            Some(p.0)
        } else {
            None
        },
        None => None,
    }
}

/// Parses one quoted string value at position `i`.
pub(crate) fn parse_quoted(s: &str, i: usize) -> (r: Option<(String, usize)>)
    requires
        i <= s@.len(),
    ensures
        match r {
            Some(p) => {
                &&& spec_parse_quoted(s@.skip(i as int)) == Some((p.0@, s@.skip(p.1 as int)))
                &&& i < p.1 <= s@.len()
            },
            None => spec_parse_quoted(s@.skip(i as int)) is None,
        },
{
    match expect_lit(s, i, "\"") {
        Some(j) => {
            proof {
                lemma_expect_strip(s@, i as int, "\""@, j as int);
            }
            parse_string_body(s, j)
        },
        None => {
            proof {
                lemma_expect_strip_none(s@, i as int, "\""@);
            }
            None
        },
    }
}

/// Parses the title field value at position `i`.
fn parse_title(s: &str, i: usize) -> (r: Option<(Option<String>, usize)>)
    requires
        i <= s@.len(),
    ensures
        match r {
            Some(p) => {
                &&& spec_parse_title(s@.skip(i as int)) == Some(
                    (
                        match p.0 {
                            Some(t) => Some(t@),
                            None => None,
                        },
                        s@.skip(p.1 as int),
                    ),
                )
                &&& i < p.1 <= s@.len()
            },
            None => spec_parse_title(s@.skip(i as int)) is None,
        },
{
    match expect_lit(s, i, "null") {
        Some(j) => {
            proof {
                lemma_expect_strip(s@, i as int, "null"@, j as int);
                reveal_strlit("null");
            }
            Some((None, j))
        },
        None => {
            proof {
                lemma_expect_strip_none(s@, i as int, "null"@);
            }
            match parse_quoted(s, i) {
                Some(p) => Some((Some(p.0), p.1)),
                None => None,
            }
        },
    }
}

/// Parses the room type field value at position `i`.
fn parse_room_type(s: &str, i: usize) -> (r: Option<(RoomType, usize)>)
    requires
        i <= s@.len(),
    ensures
        match r {
            Some(p) => {
                &&& spec_parse_room_type(s@.skip(i as int)) == Some((p.0, s@.skip(p.1 as int)))
                &&& i < p.1 <= s@.len()
            },
            None => spec_parse_room_type(s@.skip(i as int)) is None,
        },
{
    match expect_lit(s, i, "\"direct\"") {
        Some(j) => {
            proof {
                lemma_expect_strip(s@, i as int, "\"direct\""@, j as int);
                reveal_strlit("\"direct\"");
            }
            Some((RoomType::Direct, j))
        },
        None => {
            proof {
                lemma_expect_strip_none(s@, i as int, "\"direct\""@);
            }
            match expect_lit(s, i, "\"group\"") {
                Some(j) => {
                    proof {
                        lemma_expect_strip(s@, i as int, "\"group\""@, j as int);
                        reveal_strlit("\"group\"");
                    }
                    Some((RoomType::Group, j))
                },
                None => {
                    proof {
                        lemma_expect_strip_none(s@, i as int, "\"group\""@);
                    }
                    None
                },
            }
        },
    }
}

/// Parses one room at position `i`; on success the position returned is the
/// one right after its closing brace.
pub fn parse_room(s: &str, i: usize) -> (r: Option<(Room, usize)>)
    requires
        i <= s@.len(),
    ensures
        match r {
            Some(p) => {
                &&& spec_parse_room(s@.skip(i as int)) == Some((p.0@, s@.skip(p.1 as int)))
                &&& i < p.1 <= s@.len()
            },
            None => spec_parse_room(s@.skip(i as int)) is None,
        },
{
    let j1 = match expect_lit(s, i, "{\"id\":") {
        Some(j) => {
            proof {
                lemma_expect_strip(s@, i as int, "{\"id\":"@, j as int);
            }
            j
        },
        None => {
            proof {
                lemma_expect_strip_none(s@, i as int, "{\"id\":"@);
            }
            return None;
        },
    };
    let (id, j2) = match parse_quoted(s, j1) {
        Some(p) => p,
        None => {
            return None;
        },
    };
    let j3 = match expect_lit(s, j2, ",\"title\":") {
        Some(j) => {
            proof {
                lemma_expect_strip(s@, j2 as int, ",\"title\":"@, j as int);
            }
            j
        },
        None => {
            proof {
                lemma_expect_strip_none(s@, j2 as int, ",\"title\":"@);
            }
            return None;
        },
    };
    let (title, j4) = match parse_title(s, j3) {
        Some(p) => p,
        None => {
            return None;
        },
    };
    let j5 = match expect_lit(s, j4, ",\"type\":") {
        Some(j) => {
            proof {
                lemma_expect_strip(s@, j4 as int, ",\"type\":"@, j as int);
            }
            j
        },
        None => {
            proof {
                lemma_expect_strip_none(s@, j4 as int, ",\"type\":"@);
            }
            return None;
        },
    };
    let (room_type, j6) = match parse_room_type(s, j5) {
        Some(p) => p,
        None => {
            return None;
        },
    };
    let j7 = match expect_lit(s, j6, ",\"created\":") {
        Some(j) => {
            proof {
                lemma_expect_strip(s@, j6 as int, ",\"created\":"@, j as int);
            }
            j
        },
        None => {
            proof {
                lemma_expect_strip_none(s@, j6 as int, ",\"created\":"@);
            }
            return None;
        },
    };
    let (created, j8) = match parse_quoted(s, j7) {
        Some(p) => p,
        None => {
            return None;
        },
    };
    let j9 = match expect_lit(s, j8, "}") {
        Some(j) => {
            proof {
                lemma_expect_strip(s@, j8 as int, "}"@, j as int);
            }
            j
        },
        None => {
            proof {
                lemma_expect_strip_none(s@, j8 as int, "}"@);
            }
            return None;
        },
    };
    let room = Room { id, title, room_type, created };
    proof {
        assert(spec_parse_room(s@.skip(i as int)) == Some((room@, s@.skip(j9 as int))));
    }
    Some((room, j9))
}

/// Decodes a room from its canonical form; anything else is refused.
pub fn decode_room(s: &str) -> (r: Option<Room>)
    ensures
        match r {
            Some(room) => spec_decode_room(s@) == Some(room@),
            None => spec_decode_room(s@) is None,
        },
{
    proof {
        assert(s@.skip(0) =~= s@);
    }
    match parse_room(s, 0) {
        Some((room, j)) => {
            let n = s.unicode_len();
            if j == n {
                proof {
                    assert(s@.skip(j as int).len() == 0);
                }
                Some(room)
            } else {
                proof {
                    assert(s@.skip(j as int).len() > 0);
                }
                None
            }
        },
        None => None,
    }
}

/// Round trip of one quoted value, with anything following it.
pub proof fn lemma_parse_quoted_prefix(x: Seq<char>, tail: Seq<char>)
    ensures
        spec_parse_quoted(spec_encode_string(x) + tail) == Some((x, tail)),
{
    let s = spec_encode_string(x) + tail;
    let rest = escape_seq(x) + seq!['"'] + tail;
    reveal_strlit("\"");
    assert("\""@ =~= seq!['"']);
    assert(s =~= seq!['"'] + rest);
    lemma_strip_lit_prefix(seq!['"'], rest);
    assert(strip_lit(s, "\""@) == Some(rest));
    lemma_parse_escaped(x, tail);
}

/// Round trip of the title field value, with anything following it.
proof fn lemma_parse_title_prefix(t: Option<Seq<char>>, tail: Seq<char>)
    ensures
        spec_parse_title(spec_encode_title(t) + tail) == Some((t, tail)),
{
    let s = spec_encode_title(t) + tail;
    reveal_strlit("null");
    match t {
        Some(x) => {
            assert(s[0] == '"');
            if "null"@.len() <= s.len() {
                assert(s.take("null"@.len() as int)[0] == s[0]);
                assert(s.take("null"@.len() as int) != "null"@);
            }
            assert(strip_lit(s, "null"@) is None);
            lemma_parse_quoted_prefix(x, tail);
        },
        None => {
            assert(s =~= "null"@ + tail);
            lemma_strip_lit_prefix("null"@, tail);
        },
    }
}

/// Round trip of the room type field value, with anything following it.
proof fn lemma_parse_room_type_prefix(ty: RoomType, tail: Seq<char>)
    ensures
        spec_parse_room_type(spec_encode_room_type(ty) + tail) == Some((ty, tail)),
{
    let s = spec_encode_room_type(ty) + tail;
    reveal_strlit("\"direct\"");
    reveal_strlit("\"group\"");
    match ty {
        RoomType::Direct => {
            assert(s =~= "\"direct\""@ + tail);
            lemma_strip_lit_prefix("\"direct\""@, tail);
        },
        RoomType::Group => {
            assert(s =~= "\"group\""@ + tail);
            assert(s[1] == 'g');
            if "\"direct\""@.len() <= s.len() {
                assert(s.take("\"direct\""@.len() as int)[1] == s[1]);
                assert(s.take("\"direct\""@.len() as int) != "\"direct\""@);
            }
            assert(strip_lit(s, "\"direct\""@) is None);
            lemma_strip_lit_prefix("\"group\""@, tail);
        },
    }
}

/// Round trip of one room, with anything following it: parsing its canonical
/// form yields exactly the room and leaves the trailing part untouched.
pub proof fn lemma_parse_room_prefix(m: RoomModel, tail: Seq<char>)
    ensures
        spec_parse_room(spec_encode_room(m) + tail) == Some((m, tail)),
{
    let e_id = spec_encode_string(m.id);
    let e_t = spec_encode_title(m.title);
    let e_ty = spec_encode_room_type(m.room_type);
    let e_c = spec_encode_string(m.created);
    let s = spec_encode_room(m) + tail;
    let r8 = "}"@ + tail;
    let r7 = e_c + r8;
    let r6 = ",\"created\":"@ + r7;
    let r5 = e_ty + r6;
    let r4 = ",\"type\":"@ + r5;
    let r3 = e_t + r4;
    let r2 = ",\"title\":"@ + r3;
    let r1 = e_id + r2;
    assert(s =~= "{\"id\":"@ + r1);
    lemma_strip_lit_prefix("{\"id\":"@, r1);
    assert(r1 == e_id + r2);
    lemma_parse_quoted_prefix(m.id, r2);
    lemma_strip_lit_prefix(",\"title\":"@, r3);
    lemma_parse_title_prefix(m.title, r4);
    lemma_strip_lit_prefix(",\"type\":"@, r5);
    lemma_parse_room_type_prefix(m.room_type, r6);
    lemma_strip_lit_prefix(",\"created\":"@, r7);
    lemma_parse_quoted_prefix(m.created, r8);
    lemma_strip_lit_prefix("}"@, tail);
    assert(RoomModel { id: m.id, title: m.title, room_type: m.room_type, created: m.created }
        =~= m);
}

/// Serialization idempotence: decoding the canonical encoding of any room
/// yields exactly that room.
pub proof fn lemma_room_round_trip(m: RoomModel)
    ensures
        spec_decode_room(spec_encode_room(m)) == Some(m),
{
    lemma_parse_room_prefix(m, Seq::empty());
    assert(spec_encode_room(m) + Seq::<char>::empty() =~= spec_encode_room(m));
}

/// The models of a sequence of rooms.
pub open spec fn room_models(rs: Seq<Room>) -> Seq<RoomModel> {
    rs.map_values(|r: Room| r@)
}

/// The wire form of a comma-separated list of rooms.
pub open spec fn spec_encode_items(ms: Seq<RoomModel>) -> Seq<char>
    decreases ms.len(),
{
    if ms.len() == 0 {
        Seq::empty()
    } else if ms.len() == 1 {
        spec_encode_room(ms[0])
    } else {
        spec_encode_room(ms[0]) + ","@ + spec_encode_items(ms.drop_first())
    }
}

/// The canonical wire form of a room-list reply.
pub open spec fn spec_encode_rooms(ms: Seq<RoomModel>) -> Seq<char> {
    "{\"items\":["@ + spec_encode_items(ms) + "]}"@
}

/// Appending one more room appends one comma and its wire form.
proof fn lemma_encode_items_push(ms: Seq<RoomModel>, m: RoomModel)
    requires
        ms.len() >= 1,
    ensures
        spec_encode_items(ms.push(m)) == spec_encode_items(ms) + ","@ + spec_encode_room(m),
    decreases ms.len(),
{
    if ms.len() == 1 {
        assert(ms.push(m).drop_first() =~= seq![m]);
        assert(spec_encode_items(seq![m]) == spec_encode_room(m));
        assert(spec_encode_room(ms[0]) + ","@ + spec_encode_room(m) =~= spec_encode_items(ms)
            + ","@ + spec_encode_room(m));
    } else {
        assert(ms.push(m).drop_first() =~= ms.drop_first().push(m));
        lemma_encode_items_push(ms.drop_first(), m);
        assert(spec_encode_items(ms.push(m)) == spec_encode_room(ms[0]) + ","@ + (spec_encode_items(
            ms.drop_first(),
        ) + ","@ + spec_encode_room(m)));
        assert(spec_encode_room(ms[0]) + ","@ + (spec_encode_items(ms.drop_first()) + ","@
            + spec_encode_room(m)) =~= (spec_encode_room(ms[0]) + ","@ + spec_encode_items(
            ms.drop_first(),
        )) + ","@ + spec_encode_room(m));
    }
}

/// Encodes a list of rooms into the canonical reply form.
pub fn encode_rooms(rooms: &Vec<Room>) -> (r: String)
    ensures
        r@ == spec_encode_rooms(room_models(rooms@)),
{
    let ghost models = room_models(rooms@);
    let mut out = String::new();
    out.append("{\"items\":[");
    let len = rooms.len();
    if len > 0 {
        let enc = encode_room(&rooms[0]);
        out.append(enc.as_str());
        proof {
            assert(models.take(1) =~= seq![models[0]]);
            assert(spec_encode_items(models.take(1)) == spec_encode_room(models[0]));
        }
        let mut i: usize = 1;
        while i < len
            invariant
                1 <= i <= len,
                len == rooms@.len(),
                models == room_models(rooms@),
                out@ == "{\"items\":["@ + spec_encode_items(models.take(i as int)),
            decreases len - i,
        {
            let enc = encode_room(&rooms[i]);
            out.append(",");
            out.append(enc.as_str());
            proof {
                assert(models.take(i + 1 as int) =~= models.take(i as int).push(
                    models[i as int],
                ));
                lemma_encode_items_push(models.take(i as int), models[i as int]);
                assert(out@ =~= "{\"items\":["@ + spec_encode_items(models.take(i + 1 as int)));
            }
            i = i + 1;
        }
        proof {
            assert(models.take(len as int) =~= models);
        }
    } else {
        proof {
            assert(models.len() == 0);
        }
    }
    out.append("]}");
    proof {
        assert(out@ =~= spec_encode_rooms(models));
    }
    out
}

/// Parses a non-empty comma-separated list of rooms terminated by `]`;
/// returns the rooms and what follows the bracket.
pub open spec fn spec_parse_room_list(s: Seq<char>) -> Option<(Seq<RoomModel>, Seq<char>)>
    decreases s.len(),
{
    match spec_parse_room(s) {
        None => None,
        Some((m, r)) => if r.len() < s.len() {
            match strip_lit(r, "]"@) {
                Some(rest) => Some((seq![m], rest)),
                None => match strip_lit(r, ","@) {
                    Some(r2) => match spec_parse_room_list(r2) {
                        Some((ms, rest)) => Some((seq![m] + ms, rest)),
                        None => None,
                    },
                    None => None,
                },
            }
        } else {
            None
        },
    }
}

/// A canonical room-list reply and nothing else.
pub open spec fn spec_decode_rooms(s: Seq<char>) -> Option<Seq<RoomModel>> {
    match strip_lit(s, "{\"items\":["@) {
        None => None,
        Some(r) => match strip_lit(r, "]}"@) {
            Some(rest) => if rest.len() == 0 {
                Some(Seq::empty())
            } else {
                None
            },
            None => match spec_parse_room_list(r) {
                Some((ms, rest)) => match strip_lit(rest, "}"@) {
                    Some(r2) => if r2.len() == 0 {
                        Some(ms)
                    } else {
                        None
                    },
                    None => None,
                },
                None => None,
            },
        },
    }
}

/// Parses a non-empty room list at position `i`, up to and including the
/// closing bracket.
fn parse_room_list(s: &str, start: usize) -> (r: Option<(Vec<Room>, usize)>)
    requires
        start <= s@.len(),
    ensures
        match r {
            Some(p) => {
                &&& spec_parse_room_list(s@.skip(start as int)) == Some(
                    (room_models(p.0@), s@.skip(p.1 as int)),
                )
                &&& start < p.1 <= s@.len()
            },
            None => spec_parse_room_list(s@.skip(start as int)) is None,
        },
{
    let mut acc: Vec<Room> = Vec::new();
    let mut i: usize = start;
    loop
        invariant
            start <= i <= s@.len(),
            spec_parse_room_list(s@.skip(start as int)) == (match spec_parse_room_list(
                s@.skip(i as int),
            ) {
                Some(p) => Some((room_models(acc@) + p.0, p.1)),
                None => None,
            }),
        decreases s@.len() - i,
    {
        match parse_room(s, i) {
            None => {
                return None;
            },
            Some((room, j)) => {
                proof {
                    assert(s@.skip(j as int).len() < s@.skip(i as int).len());
                }
                let ghost acc0 = acc@;
                acc.push(room);
                proof {
                    assert(room_models(acc@) =~= room_models(acc0) + seq![room@]);
                }
                match expect_lit(s, j, "]") {
                    Some(j2) => {
                        proof {
                            lemma_expect_strip(s@, j as int, "]"@, j2 as int);
                            assert(room_models(acc0) + seq![room@] =~= room_models(acc@));
                        }
                        return Some((acc, j2));
                    },
                    None => {
                        proof {
                            lemma_expect_strip_none(s@, j as int, "]"@);
                        }
                        match expect_lit(s, j, ",") {
                            Some(j2) => {
                                proof {
                                    lemma_expect_strip(s@, j as int, ","@, j2 as int);
                                    match spec_parse_room_list(s@.skip(j2 as int)) {
                                        Some(q) => {
                                            assert(room_models(acc0) + (seq![room@] + q.0)
                                                =~= room_models(acc@) + q.0);
                                        },
                                        None => {},
                                    }
                                }
                                i = j2;
                            },
                            None => {
                                proof {
                                    lemma_expect_strip_none(s@, j as int, ","@);
                                }
                                return None;
                            },
                        }
                    },
                }
            },
        }
    }
}

/// Decodes a canonical room-list reply into the rooms it carries; any other
/// body is refused as a decode failure.
pub fn rooms_from_body(body: &str) -> (r: Result<Vec<Room>, Error>)
    ensures
        match r {
            Ok(rooms) => spec_decode_rooms(body@) == Some(room_models(rooms@)),
            Err(e) => spec_decode_rooms(body@) is None && e matches Error::Decode(_),
        },
{
    proof {
        assert(body@.skip(0) =~= body@);
    }
    let n = body.unicode_len();
    let j = match expect_lit(body, 0, "{\"items\":[") {
        Some(j) => {
            proof {
                lemma_expect_strip(body@, 0, "{\"items\":["@, j as int);
            }
            j
        },
        None => {
            proof {
                lemma_expect_strip_none(body@, 0, "{\"items\":["@);
            }
            return Err(Error::Decode("not a canonical room list".to_owned()));
        },
    };
    match expect_lit(body, j, "]}") {
        Some(j2) => {
            proof {
                lemma_expect_strip(body@, j as int, "]}"@, j2 as int);
            }
            if j2 == n {
                let rooms: Vec<Room> = Vec::new();
                proof {
                    assert(body@.skip(j2 as int).len() == 0);
                    assert(room_models(rooms@) =~= Seq::<RoomModel>::empty());
                }
                Ok(rooms)
            } else {
                Err(Error::Decode("text follows the room list".to_owned()))
            }
        },
        None => {
            proof {
                lemma_expect_strip_none(body@, j as int, "]}"@);
            }
            match parse_room_list(body, j) {
                Some((rooms, j2)) => {
                    match expect_lit(body, j2, "}") {
                        Some(j3) => {
                            proof {
                                lemma_expect_strip(body@, j2 as int, "}"@, j3 as int);
                            }
                            if j3 == n {
                                proof {
                                    assert(body@.skip(j3 as int).len() == 0);
                                }
                                Ok(rooms)
                            } else {
                                Err(Error::Decode("text follows the room list".to_owned()))
                            }
                        },
                        None => {
                            proof {
                                lemma_expect_strip_none(body@, j2 as int, "}"@);
                            }
                            Err(Error::Decode("the room list is not terminated".to_owned()))
                        },
                    }
                },
                None => Err(Error::Decode("not a canonical room list".to_owned())),
            }
        },
    }
}

/// Round trip of a non-empty room list followed by the closing bracket and
/// anything at all.
#[verifier::rlimit(60)]
proof fn lemma_parse_room_list_prefix(ms: Seq<RoomModel>, tail: Seq<char>)
    requires
        ms.len() >= 1,
    ensures
        spec_parse_room_list(spec_encode_items(ms) + seq![']'] + tail) == Some((ms, tail)),
    decreases ms.len(),
{
    reveal_strlit("{\"id\":");
    reveal_strlit("]");
    reveal_strlit(",");
    let s = spec_encode_items(ms) + seq![']'] + tail;
    if ms.len() == 1 {
        assert(s =~= spec_encode_room(ms[0]) + (seq![']'] + tail));
        lemma_parse_room_prefix(ms[0], seq![']'] + tail);
        let rest = seq![']'] + tail;
        assert(spec_encode_room(ms[0]).len() >= 1);
        assert(rest.len() < s.len());
        assert(rest =~= "]"@ + tail);
        lemma_strip_lit_prefix("]"@, tail);
        assert(strip_lit(rest, "]"@) == Some(tail));
        assert(seq![ms[0]] =~= ms);
    } else {
        let ms1 = ms.drop_first();
        let inner = spec_encode_items(ms1) + seq![']'] + tail;
        let rest = ","@ + inner;
        assert(s =~= spec_encode_room(ms[0]) + rest);
        lemma_parse_room_prefix(ms[0], rest);
        assert(spec_encode_room(ms[0]).len() >= 1);
        assert(rest.len() < s.len());
        assert(rest[0] == ',');
        if "]"@.len() <= rest.len() {
            assert(rest.take("]"@.len() as int)[0] == rest[0]);
            assert(rest.take("]"@.len() as int) != "]"@);
        }
        assert(strip_lit(rest, "]"@) is None);
        lemma_strip_lit_prefix(","@, inner);
        lemma_parse_room_list_prefix(ms1, tail);
        assert(seq![ms[0]] + ms1 =~= ms);
    }
}

/// Serialization idempotence of whole replies: decoding the canonical
/// encoding of any list of rooms yields exactly that list.
pub proof fn lemma_rooms_round_trip(ms: Seq<RoomModel>)
    ensures
        spec_decode_rooms(spec_encode_rooms(ms)) == Some(ms),
{
    reveal_strlit("{\"id\":");
    reveal_strlit("{\"items\":[");
    reveal_strlit("]}");
    reveal_strlit("]");
    reveal_strlit("}");
    let s = spec_encode_rooms(ms);
    let r = spec_encode_items(ms) + "]}"@;
    assert(s =~= "{\"items\":["@ + r);
    lemma_strip_lit_prefix("{\"items\":["@, r);
    if ms.len() == 0 {
        assert(r =~= "]}"@ + Seq::<char>::empty());
        lemma_strip_lit_prefix("]}"@, Seq::<char>::empty());
        assert(spec_decode_rooms(s) == Some(Seq::<RoomModel>::empty()));
        assert(Seq::<RoomModel>::empty() =~= ms);
    } else {
        assert(spec_encode_room(ms[0]).len() >= 6);
        assert(spec_encode_items(ms).len() >= 6);
        assert(r[0] == '{');
        if "]}"@.len() <= r.len() {
            assert(r.take("]}"@.len() as int)[0] == r[0]);
            assert(r.take("]}"@.len() as int) != "]}"@);
        }
        assert(strip_lit(r, "]}"@) is None);
        assert(r =~= spec_encode_items(ms) + seq![']'] + "}"@);
        lemma_parse_room_list_prefix(ms, "}"@);
        lemma_strip_lit_prefix("}"@, Seq::<char>::empty());
        assert("}"@ + Seq::<char>::empty() =~= "}"@);
        assert(strip_lit("}"@, "}"@) == Some(Seq::<char>::empty()));
    }
}

} // verus!
