//! The streaming parser that turns the discovery tool's output, as it
//! arrives in chunks, into descriptors.

use vstd::prelude::*;
use vstd::string::*;
use crate::entry::{EntryView, TyCmdListEntry};
use crate::json::{decode_entry, decoded};
use crate::text::{
    chars_of, concat_all, is_space, is_whitespace, leading_spaces, lemma_leading_spaces_bound,
    lemma_leading_spaces_is, trim_start,
};

verus! {

/// Where the first brace-balanced span of `text` ends, scanning from `from`
/// at brace depth `depth`: one past the first closing brace that brings the
/// depth from 1 to 0. A closing brace at depth 0 is passed over.
pub open spec fn span_end(text: Seq<char>, from: int, depth: nat) -> Option<int>
    decreases text.len() - from,
{
    if from < 0 || from >= text.len() {
        None
    } else if text[from] == '{' {
        span_end(text, from + 1, depth + 1)
    } else if text[from] == '}' {
        if depth == 1 {
            Some(from + 1)
        } else if depth == 0 {
            span_end(text, from + 1, 0)
        } else {
            span_end(text, from + 1, (depth - 1) as nat)
        }
    } else {
        span_end(text, from + 1, depth)
    }
}

/// The length of the candidate object at the front of `text`: the shortest
/// prefix in which the brace depth returns to zero after having been
/// positive, if there is one.
pub open spec fn first_span(text: Seq<char>) -> Option<int> {
    span_end(text, 0, 0)
}

/// A span ends after where its scan began, and within the text.
pub proof fn lemma_span_bounds(text: Seq<char>, from: int, depth: nat)
    requires
        0 <= from,
    ensures
        span_end(text, from, depth) matches Some(end) ==> from < end <= text.len() && text[end - 1]
            == '}',
    decreases text.len() - from,
{
    if from < text.len() {
        if text[from] == '{' {
            lemma_span_bounds(text, from + 1, depth + 1);
        } else if text[from] == '}' {
            if depth == 0 {
                lemma_span_bounds(text, from + 1, 0);
            } else if depth > 1 {
                lemma_span_bounds(text, from + 1, (depth - 1) as nat);
            }
        } else {
            lemma_span_bounds(text, from + 1, depth);
        }
    }
}

/// Scanning a suffix of a text is scanning the text from where the suffix
/// begins.
pub proof fn lemma_span_of_suffix(text: Seq<char>, start: int, from: int, depth: nat)
    requires
        0 <= start,
        0 <= from,
        start + from <= text.len(),
    ensures
        span_end(text.skip(start), from, depth) == match span_end(text, start + from, depth) {
            Some(end) => Some(end - start),
            None => None,
        },
    decreases text.len() - start - from,
{
    let suffix = text.skip(start);
    if start + from < text.len() {
        assert(suffix[from] == text[start + from]);
        if text[start + from] == '{' {
            lemma_span_of_suffix(text, start, from + 1, depth + 1);
        } else if text[start + from] == '}' {
            if depth == 0 {
                lemma_span_of_suffix(text, start, from + 1, 0);
            } else if depth > 1 {
                lemma_span_of_suffix(text, start, from + 1, (depth - 1) as nat);
            }
        } else {
            lemma_span_of_suffix(text, start, from + 1, depth);
        }
    }
}

/// What parsing a buffer yields: the descriptors found, in order, and the
/// text that stays for the next call.
///
/// Leading white space is dropped. If the rest holds no candidate object,
/// it stays as it is. Otherwise the candidate is decoded: on success its
/// descriptor is yielded and parsing goes on behind the candidate; on
/// failure parsing goes on one character further.
pub open spec fn drain(text: Seq<char>) -> (Seq<EntryView>, Seq<char>)
    decreases text.len(),
{
    let rest = trim_start(text);
    match first_span(rest) {
        None => (Seq::empty(), rest),
        Some(end) => {
            proof {
                lemma_leading_spaces_bound(text);
                lemma_span_bounds(rest, 0, 0);
            }
            match decoded(rest.take(end)) {
                Some(entry) => {
                    let tail = drain(rest.skip(end));
                    (seq![entry] + tail.0, tail.1)
                },
                None => drain(rest.skip(1)),
            }
        },
    }
}

/// The views of a list of descriptors.
pub open spec fn entries_view(entries: Seq<TyCmdListEntry>) -> Seq<EntryView> {
    Seq::new(entries.len(), |i: int| entries[i]@)
}

/// An incremental extractor of descriptors from a growing text buffer.
#[derive(Debug)]
pub struct EntryParser {
    buffer: String,
}

impl View for EntryParser {
    type V = Seq<char>;

    closed spec fn view(&self) -> Seq<char> {
        self.buffer@
    }
}

/// Finds where the candidate object that begins at `from` ends.
fn find_span(text: &[char], from: usize) -> (found: Option<usize>)
    requires
        from <= text.len(),
    ensures
        match found {
            Some(end) => from < end <= text.len() && first_span(text@.skip(from as int)) == Some(
                end - from,
            ),
            None => first_span(text@.skip(from as int)) is None,
        },
{
    proof {
        lemma_span_of_suffix(text@, from as int, 0, 0);
        lemma_span_bounds(text@, from as int, 0);
    }
    let mut depth: usize = 0;
    let mut i: usize = from;
    while i < text.len()
        invariant
            from <= i <= text.len(),
            depth <= i - from,
            span_end(text@, from as int, 0) == span_end(text@, i as int, depth as nat),
            first_span(text@.skip(from as int)) == match span_end(text@, from as int, 0) {
                Some(end) => Some(end - from),
                None => None,
            },
        decreases text.len() - i,
    {
        let c = text[i];
        if c == '{' {
            depth = depth + 1;
        } else if c == '}' {
            if depth == 1 {
                return Some(i + 1);
            } else if depth > 1 {
                depth = depth - 1;
            }
        }
        i = i + 1;
    }
    None
}

impl EntryParser {
    /// A parser with an empty buffer.
    pub fn new() -> (parser: Self)
        ensures
            parser@ == Seq::<char>::empty(),
    {
        EntryParser { buffer: String::new() }
    }

    /// The text that is waiting for more input.
    pub fn pending(&self) -> (text: String)
        ensures
            text@ == self@,
    {
        self.buffer.clone()
    }

    /// Whether no text is waiting.
    pub fn is_empty(&self) -> (r: bool)
        ensures
            r == (self@.len() == 0),
    {
        self.buffer.as_str().is_empty()
    }

    /// Appends `chunk` to the buffer and takes every complete descriptor out
    /// of it, as `drain` defines: the descriptors are returned in order, and
    /// what is left stays in the buffer for the next call.
    pub fn feed(&mut self, chunk: &str) -> (entries: Vec<TyCmdListEntry>)
        ensures
            entries_view(entries@) == drain(old(self)@ + chunk@).0,
            final(self)@ == drain(old(self)@ + chunk@).1,
    {
        self.buffer.append(chunk);
        let text = chars_of(self.buffer.as_str());
        assert(text@ == old(self)@ + chunk@);
        let mut entries: Vec<TyCmdListEntry> = Vec::new();
        let mut at: usize = 0;
        assert(text@.skip(0) == text@);
        assert(entries_view(entries@) + drain(text@).0 =~= drain(text@).0);
        loop
            invariant_except_break
                drain(text@).0 == entries_view(entries@) + drain(text@.skip(at as int)).0,
                drain(text@).1 == drain(text@.skip(at as int)).1,
            invariant
                at <= text.len(),
                text@ == self.buffer@,
            ensures
                at <= text.len(),
                text@ == self.buffer@,
                drain(text@).0 == entries_view(entries@),
                drain(text@).1 == text@.skip(at as int),
            decreases text.len() - at,
        {
            let ghost before = text@.skip(at as int);
            let start: usize = at;
            while at < text.len() && is_whitespace(text[at])
                invariant
                    start <= at <= text.len(),
                    forall|i: int| start <= i < at ==> is_space(#[trigger] text@[i]),
                decreases text.len() - at,
            {
                at = at + 1;
            }
            proof {
                assert forall|i: int| 0 <= i < at - start implies is_space(
                    #[trigger] before[i],
                ) by {
                    assert(before[i] == text@[start + i]);
                }
                if at - start < before.len() {
                    assert(before[at - start] == text@[at as int]);
                }
                lemma_leading_spaces_is(before, (at - start) as nat);
                assert(trim_start(before) == text@.skip(at as int));
            }
            let ghost rest = text@.skip(at as int);
            match find_span(text.as_slice(), at) {
                None => {
                    assert(entries_view(entries@) + Seq::<EntryView>::empty() =~= entries_view(
                        entries@,
                    ));
                    break ;
                },
                Some(end) => {
                    let candidate = self.buffer.as_str().substring_char(at, end);
                    assert(candidate@ == rest.take(end - at));
                    match decode_entry(candidate) {
                        Some(entry) => {
                            assert(rest.skip(end - at) == text@.skip(end as int));
                            let ghost found = entries_view(entries@);
                            entries.push(entry);
                            assert(entries_view(entries@) =~= found + seq![entry@]);
                            assert(found + (seq![entry@] + drain(text@.skip(end as int)).0)
                                =~= entries_view(entries@) + drain(text@.skip(end as int)).0);
                            at = end;
                        },
                        None => {
                            assert(rest.skip(1) == text@.skip(at + 1));
                            at = at + 1;
                        },
                    }
                },
            }
        }
        let rest = String::from_str(self.buffer.as_str().substring_char(at, text.len()));
        assert(text@.subrange(at as int, text@.len() as int) == text@.skip(at as int));
        self.buffer = rest;
        entries
    }
}

/// A span that is found in a text is found in every text that the text
/// begins.
pub proof fn lemma_span_of_prefix(text: Seq<char>, more: Seq<char>, from: int, depth: nat)
    requires
        0 <= from,
        span_end(text, from, depth) is Some,
    ensures
        span_end(text + more, from, depth) == span_end(text, from, depth),
    decreases text.len() - from,
{
    let longer = text + more;
    if from < text.len() {
        assert(longer[from] == text[from]);
        if text[from] == '{' {
            lemma_span_of_prefix(text, more, from + 1, depth + 1);
        } else if text[from] == '}' {
            if depth == 0 {
                lemma_span_of_prefix(text, more, from + 1, 0);
            } else if depth > 1 {
                lemma_span_of_prefix(text, more, from + 1, (depth - 1) as nat);
            }
        } else {
            lemma_span_of_prefix(text, more, from + 1, depth);
        }
    }
}

/// Whether every character of `text` is white space.
pub open spec fn all_spaces(text: Seq<char>) -> bool {
    forall|i: int| 0 <= i < text.len() ==> is_space(#[trigger] text[i])
}

/// Leading white space of a text that is not all white space is not
/// touched by what follows the text; white space alone is dropped together
/// with the leading white space of what follows.
pub proof fn lemma_trim_start_of_joined(a: Seq<char>, b: Seq<char>)
    ensures
        trim_start(a).len() > 0 ==> trim_start(a + b) == trim_start(a) + b,
        trim_start(a).len() == 0 ==> trim_start(a + b) == trim_start(b),
        trim_start(a).len() == 0 <==> all_spaces(a),
{
    lemma_leading_spaces_bound(a);
    lemma_leading_spaces_bound(b);
    let n = leading_spaces(a);
    let joined = a + b;
    if n < a.len() {
        assert forall|i: int| 0 <= i < n implies is_space(#[trigger] joined[i]) by {
            assert(joined[i] == a[i]);
        }
        assert(joined[n as int] == a[n as int]);
        lemma_leading_spaces_is(joined, n);
        assert(joined.skip(n as int) =~= a.skip(n as int) + b);
        assert(!is_space(a[n as int]));
    } else {
        let m = leading_spaces(b);
        assert forall|i: int| 0 <= i < n + m implies is_space(#[trigger] joined[i]) by {
            if i < n {
                assert(joined[i] == a[i]);
            } else {
                assert(joined[i] == b[i - n]);
            }
        }
        if m < b.len() {
            assert(joined[(n + m) as int] == b[m as int]);
        }
        lemma_leading_spaces_is(joined, n + m);
        assert(joined.skip((n + m) as int) =~= b.skip(m as int));
    }
}

/// Parsing depends on a text only through what is left of it without its
/// leading white space.
pub proof fn lemma_drain_of_trimmed(a: Seq<char>, b: Seq<char>)
    requires
        trim_start(a) == trim_start(b),
    ensures
        drain(a) == drain(b),
{
}

/// Parsing a text in two parts gives what parsing it whole gives: the
/// descriptors of the first part, then those found when the second part is
/// added to what the first part left, and the same text is left at the end.
pub proof fn lemma_drain_in_two(a: Seq<char>, b: Seq<char>)
    ensures
        drain(a + b).0 == drain(a).0 + drain(drain(a).1 + b).0,
        drain(a + b).1 == drain(drain(a).1 + b).1,
    decreases a.len(),
{
    let rest = trim_start(a);
    lemma_leading_spaces_bound(a);
    lemma_trim_start_of_joined(a, b);
    if rest.len() == 0 {
        assert(first_span(rest) is None);
        assert(drain(a).1 + b =~= b);
        lemma_drain_of_trimmed(a + b, b);
        assert(drain(a).0 + drain(b).0 =~= drain(b).0);
    } else {
        lemma_span_bounds(rest, 0, 0);
        match first_span(rest) {
            None => {
                lemma_leading_spaces_is(rest + b, 0);
                assert((rest + b).skip(0) =~= rest + b);
                lemma_drain_of_trimmed(a + b, rest + b);
                assert(drain(a).0 + drain(rest + b).0 =~= drain(rest + b).0);
            },
            Some(end) => {
                lemma_span_of_prefix(rest, b, 0, 0);
                assert((rest + b).take(end) =~= rest.take(end));
                match decoded(rest.take(end)) {
                    Some(entry) => {
                        let left = rest.skip(end);
                        assert((rest + b).skip(end) =~= left + b);
                        lemma_drain_in_two(left, b);
                        assert(seq![entry] + (drain(left).0 + drain(drain(left).1 + b).0)
                            =~= (seq![entry] + drain(left).0) + drain(drain(left).1 + b).0);
                    },
                    None => {
                        let left = rest.skip(1);
                        assert((rest + b).skip(1) =~= left + b);
                        lemma_drain_in_two(left, b);
                    },
                }
            },
        }
    }
}

/// What is left after parsing holds no further descriptor: parsing it again
/// yields nothing and leaves it as it is.
pub proof fn lemma_drain_is_stable(text: Seq<char>)
    ensures
        drain(drain(text).1) == (Seq::<EntryView>::empty(), drain(text).1),
{
    lemma_drain_in_two(text, Seq::empty());
    assert(text + Seq::<char>::empty() =~= text);
    assert(drain(text).1 + Seq::<char>::empty() =~= drain(text).1);
    let again = drain(drain(text).1);
    assert(again.0 =~= Seq::<EntryView>::empty()) by {
        assert(drain(text).0.len() == drain(text).0.len() + again.0.len());
    }
}

/// What a parser that starts with `buffer` yields when it is fed the chunks
/// one after the other: all the descriptors that the calls return, in
/// order, and the buffer after the last call.
pub open spec fn feed_all(buffer: Seq<char>, chunks: Seq<Seq<char>>) -> (Seq<EntryView>, Seq<char>)
    decreases chunks.len(),
{
    if chunks.len() == 0 {
        (Seq::empty(), buffer)
    } else {
        let before = feed_all(buffer, chunks.drop_last());
        let last = drain(before.1 + chunks.last());
        (before.0 + last.0, last.1)
    }
}

/// However a text is cut into chunks, feeding the chunks to a fresh parser
/// one after the other yields what parsing the whole text yields.
pub proof fn lemma_chunks_parse_as_whole(chunks: Seq<Seq<char>>)
    ensures
        feed_all(Seq::empty(), chunks) == drain(concat_all(chunks)),
    decreases chunks.len(),
{
    if chunks.len() == 0 {
        lemma_leading_spaces_bound(Seq::<char>::empty());
        assert(trim_start(Seq::<char>::empty()) =~= Seq::<char>::empty());
    } else {
        lemma_chunks_parse_as_whole(chunks.drop_last());
        lemma_drain_in_two(concat_all(chunks.drop_last()), chunks.last());
    }
}

/// Whether a text is one well-formed object: it does not begin with white
/// space, it is its own candidate object, and it decodes to a descriptor.
pub open spec fn well_formed_object(text: Seq<char>) -> bool {
    &&& text.len() > 0
    &&& !is_space(text[0])
    &&& first_span(text) == Some(text.len() as int)
    &&& decoded(text) is Some
}

/// The objects one after the other, each followed by its gap.
pub open spec fn stream_of(objects: Seq<Seq<char>>, gaps: Seq<Seq<char>>) -> Seq<char>
    decreases objects.len(),
{
    if objects.len() == 0 || gaps.len() == 0 {
        Seq::empty()
    } else {
        objects[0] + gaps[0] + stream_of(objects.drop_first(), gaps.drop_first())
    }
}

/// The descriptors that the objects decode to, in order.
pub open spec fn decoded_all(objects: Seq<Seq<char>>) -> Seq<EntryView> {
    Seq::new(objects.len(), |i: int| decoded(objects[i])->0)
}

/// A text made of well-formed objects, each followed by any amount of white
/// space, parses to exactly the descriptors of the objects, in order, and
/// nothing is left.
pub proof fn lemma_objects_parse_in_order(objects: Seq<Seq<char>>, gaps: Seq<Seq<char>>)
    requires
        objects.len() == gaps.len(),
        forall|i: int| 0 <= i < objects.len() ==> well_formed_object(#[trigger] objects[i]),
        forall|i: int| 0 <= i < gaps.len() ==> all_spaces(#[trigger] gaps[i]),
    ensures
        drain(stream_of(objects, gaps)) == (decoded_all(objects), Seq::<char>::empty()),
    decreases objects.len(),
{
    if objects.len() == 0 {
        lemma_leading_spaces_bound(Seq::<char>::empty());
        assert(trim_start(Seq::<char>::empty()) =~= Seq::<char>::empty());
        assert(decoded_all(objects) =~= Seq::<EntryView>::empty());
    } else {
        let object = objects[0];
        let gap = gaps[0];
        let later = stream_of(objects.drop_first(), gaps.drop_first());
        let text = object + gap + later;
        assert(well_formed_object(object));
        assert(all_spaces(gap));
        assert(text[0] == object[0]);
        lemma_leading_spaces_is(text, 0);
        assert(text.skip(0) =~= text);
        assert(text =~= object + (gap + later));
        lemma_span_of_prefix(object, gap + later, 0, 0);
        assert(text.take(object.len() as int) =~= object);
        assert(text.skip(object.len() as int) =~= gap + later);
        lemma_trim_start_of_joined(gap, later);
        lemma_drain_of_trimmed(gap + later, later);
        assert forall|i: int| 0 <= i < objects.drop_first().len() implies well_formed_object(
            #[trigger] objects.drop_first()[i],
        ) by {
            assert(objects.drop_first()[i] == objects[i + 1]);
        }
        assert forall|i: int| 0 <= i < gaps.drop_first().len() implies all_spaces(
            #[trigger] gaps.drop_first()[i],
        ) by {
            assert(gaps.drop_first()[i] == gaps[i + 1]);
        }
        lemma_objects_parse_in_order(objects.drop_first(), gaps.drop_first());
        assert(seq![decoded(object)->0] + decoded_all(objects.drop_first()) =~= decoded_all(
            objects,
        ));
    }
}

/// White space before a text changes nothing of what the text parses to.
pub proof fn lemma_leading_space_is_dropped(lead: Seq<char>, text: Seq<char>)
    requires
        all_spaces(lead),
    ensures
        drain(lead + text) == drain(text),
{
    lemma_trim_start_of_joined(lead, text);
    lemma_drain_of_trimmed(lead + text, text);
}

/// However a text of well-formed objects, with any amount of white space
/// before the first and after each, is cut into chunks, a fresh parser that
/// is fed the chunks returns exactly the descriptors of the objects, in
/// order, and ends with an empty buffer.
pub proof fn lemma_chunked_objects_parse_in_order(
    lead: Seq<char>,
    objects: Seq<Seq<char>>,
    gaps: Seq<Seq<char>>,
    chunks: Seq<Seq<char>>,
)
    requires
        all_spaces(lead),
        objects.len() == gaps.len(),
        forall|i: int| 0 <= i < objects.len() ==> well_formed_object(#[trigger] objects[i]),
        forall|i: int| 0 <= i < gaps.len() ==> all_spaces(#[trigger] gaps[i]),
        concat_all(chunks) == lead + stream_of(objects, gaps),
    ensures
        feed_all(Seq::empty(), chunks) == (decoded_all(objects), Seq::<char>::empty()),
{
    lemma_chunks_parse_as_whole(chunks);
    lemma_leading_space_is_dropped(lead, stream_of(objects, gaps));
    lemma_objects_parse_in_order(objects, gaps);
}

/// Whether parsing passes over all of `garbage` without yielding anything,
/// when `after` follows it: wherever parsing stands in `garbage`, once
/// white space is dropped, there is a candidate object and it does not
/// decode, so that parsing moves one character on.
pub open spec fn passed_over(garbage: Seq<char>, after: Seq<char>) -> bool
    decreases garbage.len(),
{
    let spaces = leading_spaces(garbage + after);
    if spaces >= garbage.len() {
        true
    } else {
        let rest = (garbage + after).skip(spaces as int);
        match first_span(rest) {
            Some(end) => decoded(rest.take(end)) is None && passed_over(
                garbage.skip(spaces as int + 1),
                after,
            ),
            None => false,
        }
    }
}

/// Text of which no candidate decodes is skipped: what follows it is parsed
/// as if the text were not there.
pub proof fn lemma_undecodable_text_is_skipped(garbage: Seq<char>, after: Seq<char>)
    requires
        passed_over(garbage, after),
    ensures
        drain(garbage + after) == drain(after),
    decreases garbage.len(),
{
    let text = garbage + after;
    let spaces = leading_spaces(text);
    lemma_leading_spaces_bound(text);
    if spaces >= garbage.len() {
        assert forall|i: int| 0 <= i < garbage.len() implies is_space(#[trigger] garbage[i]) by {
            assert(garbage[i] == text[i]);
        }
        lemma_trim_start_of_joined(garbage, after);
        lemma_drain_of_trimmed(text, after);
    } else {
        let rest = text.skip(spaces as int);
        assert(rest.skip(1) =~= garbage.skip(spaces as int + 1) + after);
        lemma_undecodable_text_is_skipped(garbage.skip(spaces as int + 1), after);
    }
}

/// A malformed object between two well-formed ones is skipped: where
/// parsing passes over what stands between them, exactly the descriptors of
/// the two are yielded, in order, and nothing is left.
pub proof fn lemma_malformed_object_is_skipped(
    first: Seq<char>,
    garbage: Seq<char>,
    second: Seq<char>,
)
    requires
        well_formed_object(first),
        well_formed_object(second),
        passed_over(garbage, second),
    ensures
        drain(first + garbage + second) == (
            seq![decoded(first)->0, decoded(second)->0],
            Seq::<char>::empty(),
        ),
{
    let later = garbage + second;
    let text = first + garbage + second;
    assert(text =~= first + later);
    assert(text[0] == first[0]);
    lemma_leading_spaces_is(text, 0);
    assert(text.skip(0) =~= text);
    lemma_span_of_prefix(first, later, 0, 0);
    assert(text.take(first.len() as int) =~= first);
    assert(text.skip(first.len() as int) =~= later);
    lemma_undecodable_text_is_skipped(garbage, second);
    let objects = seq![second];
    let gaps = seq![Seq::<char>::empty()];
    assert(objects.drop_first() =~= Seq::<Seq<char>>::empty());
    assert(gaps.drop_first() =~= Seq::<Seq<char>>::empty());
    assert(stream_of(objects.drop_first(), gaps.drop_first()) =~= Seq::<char>::empty());
    assert(stream_of(objects, gaps) =~= second);
    lemma_objects_parse_in_order(objects, gaps);
    assert(decoded_all(objects) =~= seq![decoded(second)->0]);
    assert(seq![decoded(first)->0] + seq![decoded(second)->0] =~= seq![
        decoded(first)->0,
        decoded(second)->0,
    ]);
}

} // verus!
