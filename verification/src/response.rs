//! Parsing of single protocol lines and the stateful classifier that
//! turns a stream of lines into unsolicited events and (possibly
//! multi-packet) command replies.

use vstd::prelude::*;

use crate::{chars_eq_ci, find_tag, find_tag_spec, str_eq_ignore_case, Packet, Tag, TagView};

verus! {

/// The index of the first `:` in `s` at or after `i`, or `-1` if there
/// is none.
pub open spec fn find_colon(s: Seq<char>, i: int) -> int
    decreases s.len() - i,
{
    if i < 0 || i >= s.len() {
        -1
    } else if s[i] == ':' {
        i
    } else {
        find_colon(s, i + 1)
    }
}

/// The index of the first character of `s` at or after `i` that is not a
/// space, or `s.len()` if all of them are.
pub open spec fn skip_spaces(s: Seq<char>, i: int) -> int
    decreases s.len() - i,
{
    if 0 <= i < s.len() && s[i] == ' ' {
        skip_spaces(s, i + 1)
    } else {
        i
    }
}

/// What one line parses to: `None` for a line without a colon, otherwise
/// the key before the first colon and the value after it, with leading
/// spaces of the value removed.
pub open spec fn parsed_tag(s: Seq<char>) -> Option<TagView> {
    let c = find_colon(s, 0);
    if c < 0 {
        None
    } else {
        let v = skip_spaces(s, c + 1);
        Some(TagView { key: s.subrange(0, c), value: s.subrange(v, s.len() as int) })
    }
}

/// Parses one non-blank line into a `Tag`.
///
/// A line with no colon is protocol noise and yields `None`; it never
/// becomes a tag.
pub fn line_to_tag(line: &str) -> (r: Option<Tag>)
    ensures
        r.deep_view() == parsed_tag(line@),
{
    let ghost s = line@;
    let n = line.unicode_len();
    let mut i: usize = 0;
    while i < n && line.get_char(i) != ':'
        invariant
            n == s.len(),
            i <= n,
            s == line@,
            find_colon(s, 0) == find_colon(s, i as int),
        decreases n - i,
    {
        i = i + 1;
    }
    if i == n {
        assert(find_colon(s, 0) == -1);
        return None;
    }
    assert(find_colon(s, 0) == i);
    let key = line.substring_char(0, i).to_owned();
    let mut j: usize = i + 1;
    while j < n && line.get_char(j) == ' '
        invariant
            n == s.len(),
            i < j <= n,
            s == line@,
            skip_spaces(s, i as int + 1) == skip_spaces(s, j as int),
        decreases n - j,
    {
        j = j + 1;
    }
    assert(skip_spaces(s, i as int + 1) == j);
    let value = line.substring_char(j, n).to_owned();
    Some(Tag { key, value })
}

/// The key that marks a packet as an unsolicited event when it heads the
/// packet.
pub open spec fn event_key() -> Seq<char> {
    seq!['E', 'v', 'e', 'n', 't']
}

/// The key of the tag that brackets a multi-packet reply sequence.
pub open spec fn event_list_key() -> Seq<char> {
    seq!['E', 'v', 'e', 'n', 't', 'L', 'i', 's', 't']
}

/// The `EventList` value that opens a reply sequence.
pub open spec fn start_value() -> Seq<char> {
    seq!['s', 't', 'a', 'r', 't']
}

/// The `EventList` value that closes a reply sequence.
pub open spec fn complete_value() -> Seq<char> {
    seq!['C', 'o', 'm', 'p', 'l', 'e', 't', 'e']
}

/// A packet is event-shaped when it is non-empty and its first tag's key
/// is `Event`, up to ASCII case.
pub open spec fn is_event_packet(p: Seq<TagView>) -> bool {
    p.len() > 0 && chars_eq_ci(p[0].key, event_key())
}

/// The sequence-open flag after a packet `p` has been appended to the
/// reply buffer: an `EventList` tag valued `start` opens the sequence, one
/// valued `Complete` closes it, anything else leaves it as it was.
pub open spec fn sequence_open_after(p: Seq<TagView>, open_before: bool) -> bool {
    match find_tag_spec(p, event_list_key()) {
        Some(v) => if chars_eq_ci(v, start_value()) {
            true
        } else if chars_eq_ci(v, complete_value()) {
            false
        } else {
            open_before
        },
        None => open_before,
    }
}

/// Ghost model of a [`ResponseBuilder`]: the packets buffered for the
/// reply under construction, the tags of the in-progress packet, and
/// whether a multi-packet reply sequence is open.
#[verifier::ext_equal]
pub ghost struct BuilderView {
    pub buffered: Seq<Seq<TagView>>,
    pub current: Seq<TagView>,
    pub sequence_open: bool,
}

/// Ghost model of a [`Response`].
pub ghost enum ResponseView {
    CommandResponse(Seq<Seq<TagView>>),
    Event(Seq<TagView>),
}

/// What the classifier does with one line: the state afterwards, and the
/// emitted classification, if any.
///
/// A blank line closes the in-progress packet.  A closed packet that is
/// event-shaped while no reply sequence is open is emitted at once as an
/// event and is never buffered.  Any other closed packet joins the reply
/// buffer; its `EventList` tag may open or close the reply sequence, and
/// when no sequence remains open the whole buffer is emitted as the
/// command reply.  A non-blank line extends the in-progress packet with
/// its tag, or is dropped when it has no colon.
pub open spec fn step(s: BuilderView, line: Seq<char>) -> (BuilderView, Option<ResponseView>) {
    if line.len() == 0 {
        if !s.sequence_open && is_event_packet(s.current) {
            (
                BuilderView { buffered: s.buffered, current: Seq::empty(), sequence_open: s.sequence_open },
                Some(ResponseView::Event(s.current)),
            )
        } else {
            let buf = s.buffered.push(s.current);
            let now_open = sequence_open_after(s.current, s.sequence_open);
            if !now_open {
                (
                    BuilderView { buffered: Seq::empty(), current: Seq::empty(), sequence_open: false },
                    Some(ResponseView::CommandResponse(buf)),
                )
            } else {
                (
                    BuilderView { buffered: buf, current: Seq::empty(), sequence_open: true },
                    None,
                )
            }
        }
    } else {
        match parsed_tag(line) {
            Some(t) => (
                BuilderView { buffered: s.buffered, current: s.current.push(t), sequence_open: s.sequence_open },
                None,
            ),
            None => (s, None),
        }
    }
}

/// A completed classification: either the full reply to the command in
/// flight, or one unsolicited event packet.
#[derive(Debug, PartialEq)]
pub enum Response {
    CommandResponse(Vec<Packet>),
    Event(Packet),
}

impl View for Response {
    type V = ResponseView;

    open spec fn view(&self) -> ResponseView {
        match self {
            Response::CommandResponse(v) => ResponseView::CommandResponse(v.deep_view()),
            Response::Event(p) => ResponseView::Event(p.deep_view()),
        }
    }
}

impl DeepView for Response {
    type V = ResponseView;

    open spec fn deep_view(&self) -> ResponseView {
        self.view()
    }
}

/// The stateful classifier.  It consumes the lines of the connection one
/// by one and emits a [`Response`] whenever a blank line completes a
/// packet that finishes an event or a command reply.
pub struct ResponseBuilder {
    response: Vec<Packet>,
    in_packet: Packet,
    in_response_sequence: bool,
}

impl View for ResponseBuilder {
    type V = BuilderView;

    closed spec fn view(&self) -> BuilderView {
        BuilderView {
            buffered: self.response.deep_view(),
            current: self.in_packet.deep_view(),
            sequence_open: self.in_response_sequence,
        }
    }
}

impl ResponseBuilder {
    /// A fresh classifier: nothing buffered, no packet in progress, no
    /// reply sequence open.
    pub fn new() -> (r: ResponseBuilder)
        ensures
            r@ == (BuilderView {
                buffered: Seq::empty(),
                current: Seq::empty(),
                sequence_open: false,
            }),
    {
        let r = Self { response: Vec::new(), in_packet: Vec::new(), in_response_sequence: false };
        proof {
            assert(r@.buffered =~= Seq::<Seq<TagView>>::empty());
            assert(r@.current =~= Seq::<TagView>::empty());
        }
        r
    }

    /// Processes a single line received from the server.
    ///
    /// `line` must not include the terminating line break.  Returns
    /// `None` if neither an event nor a command reply is complete,
    /// `Some(...)` otherwise, exactly as [`step`] describes.
    pub fn add_line(&mut self, line: &str) -> (r: Option<Response>)
        ensures
            final(self)@ == step(old(self)@, line@).0,
            r.deep_view() == step(old(self)@, line@).1,
    {
        proof {
            reveal_strlit("Event");
            reveal_strlit("EventList");
            reveal_strlit("start");
            reveal_strlit("Complete");
            assert(("Event")@ =~= event_key());
            assert(("EventList")@ =~= event_list_key());
            assert(("start")@ =~= start_value());
            assert(("Complete")@ =~= complete_value());
        }
        if line.is_empty() {
            let first_is_event = if self.in_packet.len() > 0 {
                let t0 = &self.in_packet[0];
                str_eq_ignore_case(t0.key.as_str(), "Event")
            } else {
                false
            };
            if !self.in_response_sequence && first_is_event {
                let mut data: Packet = Vec::new();
                core::mem::swap(&mut data, &mut self.in_packet);
                proof {
                    assert(self.in_packet.deep_view() =~= Seq::<TagView>::empty());
                    assert(final(self)@ =~= step(old(self)@, line@).0);
                }
                return Some(Response::Event(data));
            }
            let new_open: bool = match find_tag(&self.in_packet, "EventList") {
                Some(v) => {
                    if str_eq_ignore_case(v.as_str(), "start") {
                        true
                    } else if str_eq_ignore_case(v.as_str(), "Complete") {
                        false
                    } else {
                        self.in_response_sequence
                    }
                },
                None => self.in_response_sequence,
            };
            assert(new_open == sequence_open_after(old(self)@.current, old(self)@.sequence_open));
            let mut data: Packet = Vec::new();
            core::mem::swap(&mut data, &mut self.in_packet);
            self.response.push(data);
            self.in_response_sequence = new_open;
            proof {
                assert(self.in_packet.deep_view() =~= Seq::<TagView>::empty());
                assert(self.response.deep_view() =~= old(self)@.buffered.push(old(self)@.current));
            }
            if !new_open {
                let mut resp: Vec<Packet> = Vec::new();
                core::mem::swap(&mut resp, &mut self.response);
                proof {
                    assert(self.response.deep_view() =~= Seq::<Seq<TagView>>::empty());
                    assert(final(self)@ =~= step(old(self)@, line@).0);
                }
                return Some(Response::CommandResponse(resp));
            }
            proof {
                assert(final(self)@ =~= step(old(self)@, line@).0);
            }
            return None;
        }
        match line_to_tag(line) {
            Some(t) => {
                self.in_packet.push(t);
                proof {
                    assert(self.in_packet.deep_view() =~= old(self)@.current.push(
                        step(old(self)@, line@).0.current.last(),
                    ));
                    assert(final(self)@ =~= step(old(self)@, line@).0);
                }
            },
            None => {},
        }
        None
    }
}

proof fn lemma_find_colon_at(s: Seq<char>, i: int, k: int)
    requires
        0 <= i <= k < s.len(),
        s[k] == ':',
        forall|j: int| i <= j < k ==> s[j] != ':',
    ensures
        find_colon(s, i) == k,
    decreases k - i,
{
    if i < k {
        lemma_find_colon_at(s, i + 1, k);
    }
}

proof fn lemma_find_colon_absent(s: Seq<char>, i: int)
    requires
        0 <= i,
        forall|j: int| i <= j < s.len() ==> s[j] != ':',
    ensures
        find_colon(s, i) == -1,
    decreases s.len() - i,
{
    if i < s.len() {
        lemma_find_colon_absent(s, i + 1);
    }
}

proof fn lemma_skip_spaces_to(s: Seq<char>, i: int, k: int)
    requires
        0 <= i <= k <= s.len(),
        forall|j: int| i <= j < k ==> s[j] == ' ',
        k == s.len() || s[k] != ' ',
    ensures
        skip_spaces(s, i) == k,
    decreases k - i,
{
    if i < k {
        lemma_skip_spaces_to(s, i + 1, k);
    }
}

/// A run of `n` spaces.
pub open spec fn spaces(n: nat) -> Seq<char>
    decreases n,
{
    if n == 0 {
        Seq::empty()
    } else {
        seq![' '] + spaces((n - 1) as nat)
    }
}

proof fn lemma_spaces(n: nat)
    ensures
        spaces(n).len() == n,
        forall|i: int| 0 <= i < n ==> spaces(n)[i] == ' ',
    decreases n,
{
    if n > 0 {
        lemma_spaces((n - 1) as nat);
    }
}

/// THE TAG ROUND-TRIP LAW, parsing direction: a well-formed line — a
/// colon-free key, a colon, any number of spaces, then a value that does
/// not begin with a space — parses to exactly that key and value,
/// independent of the number of spaces after the colon.
pub proof fn lemma_parse_well_formed_line(key: Seq<char>, value: Seq<char>, n: nat)
    requires
        forall|i: int| 0 <= i < key.len() ==> key[i] != ':',
        value.len() == 0 || value[0] != ' ',
    ensures
        parsed_tag(key + seq![':'] + spaces(n) + value) == Some(TagView { key, value }),
{
    let s = key + seq![':'] + spaces(n) + value;
    lemma_spaces(n);
    let k = key.len() as int;
    assert(s[k] == ':');
    lemma_find_colon_at(s, 0, k);
    lemma_skip_spaces_to(s, k + 1, k + 1 + n);
    assert(s.subrange(0, k) =~= key);
    assert(s.subrange(k + 1 + n, s.len() as int) =~= value);
}

/// THE TAG ROUND-TRIP LAW, serializing direction: re-serializing a
/// parsed tag renders `key: value`, and parsing that line yields the
/// same key and value verbatim.
pub proof fn lemma_tag_line_round_trip(t: TagView)
    requires
        forall|i: int| 0 <= i < t.key.len() ==> t.key[i] != ':',
        t.value.len() == 0 || t.value[0] != ' ',
    ensures
        parsed_tag(crate::tag_line(t)) == Some(t),
{
    lemma_parse_well_formed_line(t.key, t.value, 1);
    lemma_spaces(1);
    assert(crate::tag_line(t) =~= t.key + seq![':'] + spaces(1) + t.value);
}

/// THE NOISE-TOLERANCE LAW: a non-blank line without a colon never
/// becomes a tag — it leaves the classifier exactly as it was and emits
/// nothing.
pub proof fn lemma_noise_line_ignored(s: BuilderView, line: Seq<char>)
    requires
        line.len() > 0,
        forall|i: int| 0 <= i < line.len() ==> line[i] != ':',
    ensures
        step(s, line) == (s, None::<ResponseView>),
{
    lemma_find_colon_absent(line, 0);
}

/// THE EVENT-BYPASS LAW: a packet completed while no reply sequence is
/// open and headed by an `Event` key is emitted immediately as an event;
/// it is never buffered, and the reply under construction is untouched.
pub proof fn lemma_event_bypasses_reply(s: BuilderView)
    requires
        !s.sequence_open,
        is_event_packet(s.current),
    ensures
        step(s, Seq::empty()).1 == Some(ResponseView::Event(s.current)),
        step(s, Seq::empty()).0.buffered == s.buffered,
        step(s, Seq::empty()).0.sequence_open == s.sequence_open,
{
}

} // verus!
