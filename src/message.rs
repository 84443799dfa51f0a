//! Encoding of extracted values as lines of the line protocol:
//! `measurement,<topic tags>,<key tags> value=<value> <timestamp>`.

use crate::coerce::{
    coerces_to, is_false_word, is_true_word, leading_token, skip_space, skip_space_back, token_end,
    trimmed, Scalar,
};
use crate::payload::{classified, entries_view, msgpack_accepts, Key, Payload, Values};
use crate::text::is_space;
use vstd::utf8::valid_utf8;
use crate::text::{chars_of, decimal, push_char, push_decimal, push_str};
use vstd::prelude::*;

verus! {

/// Line-protocol escaping: a backslash before each space and comma.
pub open spec fn escaped(s: Seq<char>) -> Seq<char>
    decreases s.len(),
{
    if s.len() == 0 {
        seq![]
    } else {
        let c = s.last();
        escaped(s.drop_last()) + if c == ' ' || c == ',' {
            seq!['\\', c]
        } else {
            seq![c]
        }
    }
}

/// The segments of `s` between `/` separators (at least one).
pub open spec fn segments(s: Seq<char>) -> Seq<Seq<char>>
    decreases s.len(),
{
    if s.len() == 0 {
        seq![seq![]]
    } else {
        let r = segments(s.drop_last());
        if s.last() == '/' {
            r.push(seq![])
        } else {
            r.update(r.len() - 1, r.last().push(s.last()))
        }
    }
}

/// `topic<i>=<segment>,` for the first `n` segments, numbered from 1.
pub open spec fn segment_tags(parts: Seq<Seq<char>>, n: int) -> Seq<char>
    decreases n,
{
    if n <= 0 {
        seq![]
    } else {
        segment_tags(parts, n - 1) + "topic"@ + decimal(n as nat) + "="@ + parts[n - 1] + ","@
    }
}

/// `topicE<i>=<segment>,` for the last `n` segments, numbered from the end.
pub open spec fn end_tags(parts: Seq<Seq<char>>, n: int) -> Seq<char>
    decreases n,
{
    if n <= 0 {
        seq![]
    } else {
        end_tags(parts, n - 1) + "topicE"@ + decimal(n as nat) + "="@ + parts[parts.len() - n]
            + ","@
    }
}

/// At most three: the number of tags counted from the end.
pub open spec fn end_count(n: int) -> int {
    if n < 3 {
        n
    } else {
        3
    }
}

/// The topic tags of a topic: the escaped topic itself, each segment from
/// the start, up to three segments from the end, and the segment count.
pub open spec fn topic_tags_text(topic: Seq<char>) -> Seq<char> {
    let e = escaped(topic);
    let parts = segments(e);
    "topic="@ + e + ","@ + segment_tags(parts, parts.len() as int) + end_tags(
        parts,
        end_count(parts.len() as int),
    ) + "topicSegments="@ + decimal(parts.len())
}

/// How a key path segment is written.
pub open spec fn key_text(k: Key) -> Seq<char> {
    match k {
        Key::String(s) => s@,
        Key::Int(i) => decimal(i as nat),
    }
}

/// `key<i>=<segment>` for the first `n` segments, comma-separated.
pub open spec fn key_list(keys: Seq<Key>, n: int) -> Seq<char>
    decreases n,
{
    if n <= 0 {
        seq![]
    } else {
        key_list(keys, n - 1) + (if n > 1 {
            ","@
        } else {
            seq![]
        }) + "key"@ + decimal(n as nat) + "="@ + key_text(keys[n - 1])
    }
}

/// The key tags of a non-empty key path.
pub open spec fn key_tags_text(keys: Seq<Key>) -> Seq<char> {
    key_list(keys, keys.len() as int) + ",keySegments="@ + decimal(keys.len())
}

pub open spec fn views(v: Seq<String>) -> Seq<Seq<char>> {
    v.map_values(|s: String| s@)
}

/// Splits `s` at each `/`.
fn split_segments(s: &str) -> (r: Vec<String>)
    ensures
        views(r@) == segments(s@),
{
    let cs = chars_of(s);
    let mut parts: Vec<String> = Vec::new();
    let mut cur = String::new();
    let mut i: usize = 0;
    assert(segments(cs@.subrange(0, 0)) =~= views(parts@).push(cur@));
    while i < cs.len()
        invariant
            i <= cs@.len(),
            cs@ == s@,
            views(parts@).push(cur@) == segments(cs@.subrange(0, i as int)),
        decreases cs.len() - i,
    {
        let c = cs[i];
        let ghost p = cs@.subrange(0, i + 1);
        let ghost before = segments(cs@.subrange(0, i as int));
        assert(p.drop_last() =~= cs@.subrange(0, i as int));
        if c == '/' {
            let done = cur;
            parts.push(done);
            cur = String::new();
            assert(views(parts@).push(cur@) =~= before.push(seq![]));
        } else {
            push_char(&mut cur, c);
            assert(views(parts@).push(cur@) =~= before.update(
                before.len() - 1,
                before.last().push(c),
            ));
        }
        i += 1;
    }
    assert(cs@.subrange(0, cs@.len() as int) =~= s@);
    parts.push(cur);
    assert(views(parts@) =~= segments(s@));
    parts
}

/// Escapes spaces and commas with a backslash.
pub fn line_protocol_escape(s: &str) -> (r: String)
    ensures
        r@ == escaped(s@),
{
    let cs = chars_of(s);
    let mut r = String::new();
    let mut i: usize = 0;
    while i < cs.len()
        invariant
            i <= cs@.len(),
            cs@ == s@,
            r@ == escaped(cs@.subrange(0, i as int)),
        decreases cs.len() - i,
    {
        let c = cs[i];
        if c == ' ' || c == ',' {
            push_char(&mut r, '\\');
        }
        push_char(&mut r, c);
        proof {
            let p = cs@.subrange(0, i + 1);
            assert(p.drop_last() =~= cs@.subrange(0, i as int));
            assert(p.last() == c);
            if c == ' ' || c == ',' {
                assert(escaped(p) =~= escaped(p.drop_last()) + seq!['\\', c]);
            } else {
                assert(escaped(p) =~= escaped(p.drop_last()) + seq![c]);
            }
        }
        i += 1;
    }
    assert(cs@.subrange(0, cs@.len() as int) =~= s@);
    r
}

/// The topic tags of `topic`, e.g. for `foo/bar`:
/// `topic=foo/bar,topic1=foo,topic2=bar,topicE1=bar,topicE2=foo,topicSegments=2`.
pub fn topic_tags(topic: &str) -> (r: String)
    ensures
        r@ == topic_tags_text(topic@),
{
    let esc = line_protocol_escape(topic);
    let parts = split_segments(esc.as_str());
    let ghost pv = views(parts@);
    let n = parts.len();
    let mut tags = String::new();
    push_str(&mut tags, "topic=");
    push_str(&mut tags, esc.as_str());
    push_str(&mut tags, ",");
    let ghost head = tags@;
    let mut i: usize = 0;
    while i < n
        invariant
            n == parts@.len(),
            pv == views(parts@),
            i <= n,
            tags@ == head + segment_tags(pv, i as int),
        decreases n - i,
    {
        push_str(&mut tags, "topic");
        push_decimal(&mut tags, (i + 1) as u128);
        push_str(&mut tags, "=");
        push_str(&mut tags, parts[i].as_str());
        push_str(&mut tags, ",");
        assert(pv[i as int] == parts@[i as int]@);
        assert(tags@ =~= head + segment_tags(pv, i + 1));
        i += 1;
    }
    let ghost mid = tags@;
    let m: usize = if n < 3 {
        n
    } else {
        3
    };
    let mut j: usize = 0;
    while j < m
        invariant
            n == parts@.len(),
            pv == views(parts@),
            m <= n,
            j <= m,
            tags@ == mid + end_tags(pv, j as int),
        decreases m - j,
    {
        push_str(&mut tags, "topicE");
        push_decimal(&mut tags, (j + 1) as u128);
        push_str(&mut tags, "=");
        push_str(&mut tags, parts[n - 1 - j].as_str());
        push_str(&mut tags, ",");
        assert(pv[n - (j + 1)] == parts@[n - 1 - j]@);
        assert(tags@ =~= mid + end_tags(pv, j + 1));
        j += 1;
    }
    push_str(&mut tags, "topicSegments=");
    push_decimal(&mut tags, n as u128);
    assert(tags@ =~= topic_tags_text(topic@));
    tags
}

fn push_key(s: &mut String, k: &Key)
    ensures
        final(s)@ == old(s)@ + key_text(*k),
{
    match k {
        Key::String(name) => push_str(s, name.as_str()),
        Key::Int(i) => push_decimal(s, *i as u128),
    }
}

/// The key tags of a key path, e.g. `key1=foo,key2=bar,key3=42,keySegments=3`.
pub fn key_tags(keys: &[Key]) -> (r: String)
    requires
        keys@.len() > 0,
    ensures
        r@ == key_tags_text(keys@),
{
    let mut tags = String::new();
    let mut i: usize = 0;
    while i < keys.len()
        invariant
            i <= keys@.len(),
            tags@ == key_list(keys@, i as int),
        decreases keys.len() - i,
    {
        if i > 0 {
            push_str(&mut tags, ",");
        }
        push_str(&mut tags, "key");
        push_decimal(&mut tags, (i + 1) as u128);
        push_str(&mut tags, "=");
        push_key(&mut tags, &keys[i]);
        assert(tags@ =~= key_list(keys@, i + 1));
        i += 1;
    }
    push_str(&mut tags, ",keySegments=");
    push_decimal(&mut tags, keys.len() as u128);
    tags
}

/// One line: measurement, topic tags, key tags, the value field and the
/// timestamp in nanoseconds.
pub open spec fn line_text(tags: Seq<char>, keys: Seq<char>, value: Seq<char>, nanos: nat) -> Seq<
    char,
> {
    "measurement,"@ + tags + ","@ + keys + " value="@ + value + " "@ + decimal(nanos)
}

/// Every key path of `v` is non-empty (a `Single` value has none).
pub open spec fn keyed(v: Values) -> bool {
    match v {
        Values::Single(_) => true,
        Values::Many(m) => forall|i: int| 0 <= i < m@.len() ==> (#[trigger] m@[i]).0@.len() > 0,
    }
}

/// The lines for the values of a payload at `topic`, taken at `nanos`.
pub open spec fn lines_of(topic: Seq<char>, nanos: nat, values: Option<Values>) -> Seq<Seq<char>> {
    let tags = topic_tags_text(topic);
    match values {
        None => seq![],
        Some(Values::Single(v)) => seq![line_text(tags, "keySegments=0"@, v@, nanos)],
        Some(Values::Many(m)) => entries_view(m@).map_values(
            |e: (Seq<Key>, Seq<char>)| line_text(tags, key_tags_text(e.0), e.1, nanos),
        ),
    }
}

fn push_line(out: &mut Vec<String>, tags: &String, keys: &String, value: &String, nanos: u128)
    ensures
        final(out)@.len() == old(out)@.len() + 1,
        final(out)@.subrange(0, old(out)@.len() as int) == old(out)@,
        final(out)@.last()@ == line_text(tags@, keys@, value@, nanos as nat),
{
    let mut line = String::new();
    push_str(&mut line, "measurement,");
    push_str(&mut line, tags.as_str());
    push_str(&mut line, ",");
    push_str(&mut line, keys.as_str());
    push_str(&mut line, " value=");
    push_str(&mut line, value.as_str());
    push_str(&mut line, " ");
    push_decimal(&mut line, nanos);
    assert(line@ =~= line_text(tags@, keys@, value@, nanos as nat));
    out.push(line);
    assert(out@.subrange(0, old(out)@.len() as int) =~= old(out)@);
}

/// A record from the bus: when it arrived, on which topic, and its payload.
pub struct Message {
    nanos: u128,
    topic: String,
    payload: Vec<u8>,
}

impl Message {
    pub closed spec fn nanos_spec(&self) -> u128 {
        self.nanos
    }

    pub closed spec fn topic_spec(&self) -> Seq<char> {
        self.topic@
    }

    pub closed spec fn payload_spec(&self) -> Seq<u8> {
        self.payload@
    }

    pub fn new(nanos: u128, topic: String, payload: Vec<u8>) -> (r: Message)
        ensures
            r.nanos_spec() == nanos,
            r.topic_spec() == topic@,
            r.payload_spec() == payload@,
    {
        Message { nanos, topic, payload }
    }

    pub fn payload(&self) -> (r: &Vec<u8>)
        ensures
            r@ == self.payload_spec(),
    {
        &self.payload
    }

    /// The lines of this message, given the values extracted from its
    /// payload: none, one per value, in order.
    pub fn into_line_protocol(self, values: Option<Values>) -> (r: Vec<String>)
        requires
            values matches Some(v) ==> keyed(v),
        ensures
            views(r@) == lines_of(self.topic_spec(), self.nanos_spec() as nat, values),
    {
        let tags = topic_tags(self.topic.as_str());
        let mut out: Vec<String> = Vec::new();
        match values {
            None => {
                assert(views(out@) =~= seq![]);
            },
            Some(Values::Single(v)) => {
                let mut keys = String::new();
                push_str(&mut keys, "keySegments=0");
                push_line(&mut out, &tags, &keys, &v, self.nanos);
                assert(views(out@) =~= lines_of(
                    self.topic_spec(),
                    self.nanos_spec() as nat,
                    Some(Values::Single(v)),
                ));
            },
            Some(Values::Many(m)) => {
                let ghost lines = lines_of(
                    self.topic_spec(),
                    self.nanos_spec() as nat,
                    Some(Values::Many(m)),
                );
                let mut i: usize = 0;
                while i < m.len()
                    invariant
                        i <= m@.len(),
                        forall|k: int| 0 <= k < m@.len() ==> (#[trigger] m@[k]).0@.len() > 0,
                        tags@ == topic_tags_text(self.topic_spec()),
                        lines == entries_view(m@).map_values(
                            |e: (Seq<Key>, Seq<char>)|
                                line_text(tags@, key_tags_text(e.0), e.1, self.nanos as nat),
                        ),
                        views(out@) == lines.subrange(0, i as int),
                    decreases m.len() - i,
                {
                    assert(m@[i as int].0@.len() > 0);
                    let keys = key_tags(m[i].0.as_slice());
                    let ghost before = out@;
                    push_line(&mut out, &tags, &keys, &m[i].1, self.nanos);
                    assert(views(out@) =~= views(before).push(out@.last()@));
                    assert(lines.subrange(0, i + 1) =~= lines.subrange(0, i as int).push(
                        lines[i as int],
                    ));
                    i += 1;
                }
                assert(lines.subrange(0, m@.len() as int) =~= lines);
            },
        }
        out
    }
}

proof fn lemma_token_end(t: Seq<char>, i: int)
    requires
        0 <= i <= t.len(),
        forall|k: int| 0 <= k < t.len() ==> !is_space(#[trigger] t[k]),
    ensures
        token_end(t, i) == t.len(),
    decreases t.len() - i,
{
    if i < t.len() {
        lemma_token_end(t, i + 1);
    }
}

/// Text that is one token (no white space) and no boolean word coerces to
/// itself as the token to read; once read, a single value stands verbatim
/// as the value field of the one line of its message.
pub proof fn lemma_plain_number_passes_through(
    t: Seq<char>,
    r: Option<Scalar>,
    v: String,
    topic: Seq<char>,
    nanos: nat,
)
    requires
        t.len() > 0,
        forall|k: int| 0 <= k < t.len() ==> !is_space(#[trigger] t[k]),
        !is_true_word(t),
        !is_false_word(t),
        coerces_to(t, r),
        v@ == t,
    ensures
        r matches Some(Scalar::Token(tok)) && tok@ == t,
        lines_of(topic, nanos, Some(Values::Single(v))) == seq![
            line_text(topic_tags_text(topic), "keySegments=0"@, t, nanos),
        ],
{
    assert(skip_space(t, 0) == 0);
    assert(skip_space_back(t, 0, t.len() as int) == t.len());
    assert(trimmed(t) =~= t);
    lemma_token_end(t, 0);
    assert(leading_token(t) =~= t);
}

/// Bytes that are neither UTF-8 nor a MessagePack value classify as no
/// payload at all, and no payload yields no line.
pub proof fn lemma_unreadable_payload_yields_nothing(
    b: Seq<u8>,
    r: Option<Payload>,
    topic: Seq<char>,
    nanos: nat,
)
    requires
        !valid_utf8(b),
        !msgpack_accepts(b),
        classified(b, r),
    ensures
        r is None,
        lines_of(topic, nanos, None).len() == 0,
{
}

} // verus!
