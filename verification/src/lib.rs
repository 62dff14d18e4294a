//! Client-side core of a line-oriented, key/value, CRLF-delimited text
//! protocol used to control a telephony server over a single long-lived
//! socket.
//!
//! The verified core consists of the `Tag`/`Packet` vocabulary, the line
//! parser and packet serializer, the stateful response classifier that
//! separates unsolicited events from (possibly multi-packet) command
//! replies, and the connection core that enforces the single-in-flight
//! command discipline.  The socket itself, the async plumbing and the
//! command-line front end live outside the library.

use vstd::prelude::*;

pub mod conn;
pub mod response;

verus! {

/// Ghost model of a [`Tag`]: one `key: value` line of the protocol.
pub ghost struct TagView {
    pub key: Seq<char>,
    pub value: Seq<char>,
}

/// A tag is a single line of communication on the wire.
///
/// It is similar to an entry in a map.  It has a `key` and a `value`.
#[derive(Debug, PartialEq, PartialOrd)]
pub struct Tag {
    pub key: String,
    pub value: String,
}

impl View for Tag {
    type V = TagView;

    open spec fn view(&self) -> TagView {
        TagView { key: self.key@, value: self.value@ }
    }
}

impl DeepView for Tag {
    type V = TagView;

    open spec fn deep_view(&self) -> TagView {
        self.view()
    }
}

impl Clone for Tag {
    fn clone(&self) -> (r: Tag)
        ensures
            r@ == self@,
    {
        Tag { key: self.key.clone(), value: self.value.clone() }
    }
}

impl Tag {
    pub fn of(key: String, value: String) -> (r: Self)
        ensures
            r@ == (TagView { key: key@, value: value@ }),
    {
        Self { key, value }
    }

    pub fn from(key: &str, value: &str) -> (r: Self)
        ensures
            r@ == (TagView { key: key@, value: value@ }),
    {
        Self { key: key.to_owned(), value: value.to_owned() }
    }
}

/// A `Packet` is a sequence of `Tag`s being transmitted over the wire,
/// terminated by an empty line.
pub type Packet = Vec<Tag>;

/// The code point of `c`, with an ASCII upper-case letter folded to its
/// lower-case counterpart.  Keys and the structural tag values of the
/// protocol are compared under this folding.
pub open spec fn lower_code(c: char) -> int {
    if 'A' as int <= c as int && c as int <= 'Z' as int {
        c as int + 32
    } else {
        c as int
    }
}

/// ASCII-case-insensitive equality of two character sequences.
pub open spec fn chars_eq_ci(a: Seq<char>, b: Seq<char>) -> bool {
    a.len() == b.len() && forall|i: int| 0 <= i < a.len() ==> lower_code(a[i]) == lower_code(b[i])
}

/// Compares two strings for equality, ignoring the case of ASCII letters.
pub fn str_eq_ignore_case(a: &str, b: &str) -> (r: bool)
    ensures
        r == chars_eq_ci(a@, b@),
{
    let alen = a.unicode_len();
    let blen = b.unicode_len();
    if alen != blen {
        return false;
    }
    let mut i: usize = 0;
    while i < alen
        invariant
            alen == a@.len(),
            blen == b@.len(),
            alen == blen,
            i <= alen,
            forall|j: int| 0 <= j < i ==> lower_code(a@[j]) == lower_code(b@[j]),
        decreases alen - i,
    {
        let ca = a.get_char(i) as u32;
        let cb = b.get_char(i) as u32;
        let la: u32 = if 65 <= ca && ca <= 90 { ca + 32 } else { ca };
        let lb: u32 = if 65 <= cb && cb <= 90 { cb + 32 } else { cb };
        if la != lb {
            assert(lower_code(a@[i as int]) != lower_code(b@[i as int]));
            return false;
        }
        i = i + 1;
    }
    true
}

/// The value of the first tag of `p` whose key equals `key` up to ASCII
/// case, or `None` if no tag matches.
pub open spec fn find_tag_spec(p: Seq<TagView>, key: Seq<char>) -> Option<Seq<char>>
    decreases p.len(),
{
    if p.len() == 0 {
        None
    } else if chars_eq_ci(p[0].key, key) {
        Some(p[0].value)
    } else {
        find_tag_spec(p.drop_first(), key)
    }
}

/// Searches for a `Tag` within a packet.
///
/// The key comparison ignores the case of ASCII letters; the first
/// matching tag wins.
pub fn find_tag<'a>(pkt: &'a Packet, key: &str) -> (r: Option<&'a String>)
    ensures
        match r {
            Some(v) => find_tag_spec(pkt.deep_view(), key@) == Some(v@),
            None => find_tag_spec(pkt.deep_view(), key@) is None,
        },
{
    let ghost pv = pkt.deep_view();
    proof {
        assert(pv.skip(0) =~= pv);
    }
    let mut i: usize = 0;
    while i < pkt.len()
        invariant
            i <= pkt.len(),
            pv == pkt.deep_view(),
            pv.len() == pkt.len(),
            find_tag_spec(pv, key@) == find_tag_spec(pv.skip(i as int), key@),
        decreases pkt.len() - i,
    {
        let t = &pkt[i];
        assert(pv.skip(i as int)[0] == pv[i as int]);
        if str_eq_ignore_case(t.key.as_str(), key) {
            return Some(&t.value);
        }
        assert(pv.skip(i as int).drop_first() =~= pv.skip(i as int + 1));
        i = i + 1;
    }
    assert(pv.skip(pkt.len() as int) =~= Seq::<TagView>::empty());
    None
}

/// The textual rendering of one tag: `key: value`.
pub open spec fn tag_line(t: TagView) -> Seq<char> {
    t.key + seq![':', ' '] + t.value
}

/// The line terminator of the wire format.
pub open spec fn crlf() -> Seq<char> {
    seq!['\r', '\n']
}

/// The textual rendering of a packet: its tag lines joined by CRLF,
/// with no trailing terminator.
pub open spec fn packet_text(p: Seq<TagView>) -> Seq<char>
    decreases p.len(),
{
    if p.len() == 0 {
        Seq::empty()
    } else if p.len() == 1 {
        tag_line(p[0])
    } else {
        packet_text(p.drop_last()) + crlf() + tag_line(p.last())
    }
}

/// Renders a packet as its tag lines joined by CRLF.
pub fn packet_to_string(pkt: &Packet) -> (r: String)
    ensures
        r@ == packet_text(pkt.deep_view()),
{
    let ghost pv = pkt.deep_view();
    proof {
        reveal_strlit("\r\n");
        reveal_strlit(": ");
        assert(pv.take(0) =~= Seq::<TagView>::empty());
    }
    let mut out = String::new();
    let mut i: usize = 0;
    while i < pkt.len()
        invariant
            i <= pkt.len(),
            pv == pkt.deep_view(),
            pv.len() == pkt.len(),
            ("\r\n")@ == crlf(),
            (": ")@ == seq![':', ' '],
            out@ == packet_text(pv.take(i as int)),
        decreases pkt.len() - i,
    {
        if i > 0 {
            out.append("\r\n");
        }
        let t = &pkt[i];
        out.append(t.key.as_str());
        out.append(": ");
        out.append(t.value.as_str());
        proof {
            let taken = pv.take(i as int + 1);
            assert(taken.drop_last() =~= pv.take(i as int));
            assert(taken.last() == pv[i as int]);
            assert(out@ =~= packet_text(taken));
        }
        i = i + 1;
    }
    proof {
        assert(pv.take(pkt.len() as int) =~= pv);
    }
    out
}

} // verus!
