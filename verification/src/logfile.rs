//! Append-only log files that are bounded by dropping their oldest lines.
//!
//! A log is the content of its file, byte for byte.

use vstd::prelude::*;
use vstd::utf8::*;

use crate::text;

verus! {

/// The byte that ends a line.
pub const NEWLINE: u8 = 10;

/// What stands after the first line feed of `s`, or `s` where it has none.
pub open spec fn after_newline(s: Seq<u8>) -> Seq<u8>
{
    match first_newline(s) {
        Some(k) => s.subrange(k + 1, s.len() as int),
        None => s,
    }
}

/// The position of the first line feed.
pub open spec fn first_newline(s: Seq<u8>) -> Option<int>
    decreases s.len(),
{
    if s.len() == 0 {
        None
    } else if s[0] == NEWLINE {
        Some(0int)
    } else {
        match first_newline(s.subrange(1, s.len() as int)) {
            Some(k) => Some(k + 1),
            None => None,
        }
    }
}

/// A log cut back to its newest `keep` bytes, less the line they begin in the
/// middle of, where it holds more than `max` bytes.
pub open spec fn bounded(content: Seq<u8>, max: nat, keep: nat) -> Seq<u8> {
    if content.len() > max {
        let from = if content.len() > keep {
            content.len() - keep
        } else {
            0
        };
        after_newline(content.subrange(from, content.len() as int))
    } else {
        content
    }
}

/// A log with a line added at its end.
pub open spec fn appended(content: Seq<u8>, line: Seq<char>, max: nat, keep: nat) -> Seq<u8> {
    bounded(content, max, keep) + encode_utf8(line) + seq![NEWLINE]
}

/// The lines of a log, oldest first; none where it is not UTF-8.
pub open spec fn log_texts(content: Seq<u8>) -> Seq<Seq<char>> {
    if valid_utf8(content) {
        text::lines(decode_utf8(content))
    } else {
        Seq::empty()
    }
}

/// `std::str::from_utf8`: the text that the bytes encode, where they are valid
/// UTF-8.
#[verifier::external_body]
fn text_of_bytes(bytes: &Vec<u8>) -> (r: Option<String>)
    ensures
        match r {
            Some(s) => valid_utf8(bytes@) && s@ == decode_utf8(bytes@),
            None => !valid_utf8(bytes@),
        },
{
    std::str::from_utf8(bytes).ok().map(|s| s.to_string())
}

/// The text that `String::from_utf8_lossy` makes of bytes.
pub uninterp spec fn lossy(bytes: Seq<u8>) -> Seq<char>;

/// `String::from_utf8_lossy`: valid UTF-8 becomes the text it encodes. What
/// stands for invalid bytes is left unsaid; it depends on the bytes alone.
#[verifier::external_body]
pub(crate) fn lossy_text(bytes: &Vec<u8>) -> (r: String)
    ensures
        r@ == lossy(bytes@),
        valid_utf8(bytes@) ==> r@ == decode_utf8(bytes@),
{
    String::from_utf8_lossy(bytes).into_owned()
}

fn position_newline(content: &Vec<u8>, from: usize) -> (r: Option<usize>)
    requires
        from <= content@.len(),
    ensures
        match r {
            Some(k) => from <= k < content@.len() && first_newline(
                content@.subrange(from as int, content@.len() as int),
            ) == Some(k - from),
            None => first_newline(content@.subrange(from as int, content@.len() as int)) is None,
        },
{
    let ghost n = content@.len() as int;
    let ghost all = content@.subrange(from as int, n);
    let mut i: usize = from;
    assert(all == content@.subrange(i as int, n));
    while i < content.len()
        invariant
            n == content@.len(),
            from <= i <= n,
            all == content@.subrange(from as int, n),
            match first_newline(content@.subrange(i as int, n)) {
                Some(k) => first_newline(all) == Some(k + (i - from)),
                None => first_newline(all) is None,
            },
        decreases n - i,
    {
        let ghost rest = content@.subrange(i as int, n);
        if content[i] == NEWLINE {
            assert(rest[0] == NEWLINE);
            return Some(i);
        }
        assert(rest.subrange(1, rest.len() as int) =~= content@.subrange(i + 1, n));
        i = i + 1;
    }
    None
}

/// Cuts a log back to its newest lines once it has outgrown `max` bytes.
pub fn bound(content: &mut Vec<u8>, max: usize, keep: usize)
    ensures
        final(content)@ == bounded(old(content)@, max as nat, keep as nat),
{
    let n: usize = content.len();
    if n > max {
        let from: usize = if n > keep {
            n - keep
        } else {
            0
        };
        let start: usize = match position_newline(content, from) {
            Some(k) => k + 1,
            None => from,
        };
        let ghost before = content@;
        let mut out: Vec<u8> = Vec::new();
        let mut i: usize = start;
        while i < n
            invariant
                n == content@.len(),
                start <= i <= n,
                content@ == before,
                out@ == before.subrange(start as int, i as int),
            decreases n - i,
        {
            out.push(content[i]);
            i = i + 1;
        }
        proof {
            let cut = before.subrange(from as int, n as int);
            assert(before.subrange(start as int, n as int) =~= after_newline(cut));
        }
        *content = out;
    }
}

/// Adds a line at the end of a log, after bounding it.
pub fn append_line(content: &mut Vec<u8>, line: &str, max: usize, keep: usize)
    ensures
        final(content)@ == appended(old(content)@, line@, max as nat, keep as nat),
{
    bound(content, max, keep);
    let ghost before = content@;
    content.extend_from_slice(line.as_bytes());
    assert(content@ =~= before + encode_utf8(line@));
    content.push(NEWLINE);
    assert(content@ =~= before + encode_utf8(line@) + seq![NEWLINE]);
}

/// The lines of a log, oldest first.
pub fn log_lines(content: &Vec<u8>) -> (r: Vec<String>)
    ensures
        text::texts(r@) == log_texts(content@),
{
    match text_of_bytes(content) {
        Some(s) => text::lines_of(s.as_str()),
        None => {
            let out: Vec<String> = Vec::new();
            assert(text::texts(out@) =~= Seq::<Seq<char>>::empty());
            out
        },
    }
}

proof fn lemma_first_newline(s: Seq<u8>)
    ensures
        match first_newline(s) {
            Some(k) => 0 <= k < s.len() && s[k] == NEWLINE,
            None => true,
        },
    decreases s.len(),
{
    if s.len() > 0 && s[0] != NEWLINE {
        lemma_first_newline(s.subrange(1, s.len() as int));
    }
}

/// Appending never lets a log grow past its bound by more than the new line.
pub proof fn law_append_is_bounded(content: Seq<u8>, line: Seq<char>, max: nat, keep: nat)
    requires
        keep <= max,
    ensures
        appended(content, line, max, keep).len() <= max + encode_utf8(line).len() + 1,
{
    if content.len() > max {
        let cut = content.subrange(content.len() - keep, content.len() as int);
        lemma_first_newline(cut);
    }
}

/// Bounding a log drops its oldest bytes only: what is left is its end.
pub proof fn law_bounded_is_a_suffix(content: Seq<u8>, max: nat, keep: nat)
    ensures
        bounded(content, max, keep).len() <= content.len(),
        bounded(content, max, keep) == content.subrange(
            content.len() - bounded(content, max, keep).len(),
            content.len() as int,
        ),
{
    let b = bounded(content, max, keep);
    if content.len() > max {
        let from = if content.len() > keep {
            content.len() - keep
        } else {
            0
        };
        let cut = content.subrange(from, content.len() as int);
        lemma_first_newline(cut);
        assert(b =~= content.subrange(content.len() - b.len(), content.len() as int));
    } else {
        assert(b =~= content.subrange(0, content.len() as int));
    }
}

proof fn lemma_encode_concat(a: Seq<char>, b: Seq<char>)
    ensures
        encode_utf8(a + b) == encode_utf8(a) + encode_utf8(b),
    decreases a.len(),
{
    if a.len() == 0 {
        assert(a + b =~= b);
        assert(encode_utf8(a) =~= Seq::<u8>::empty());
    } else {
        let rest = a.drop_first();
        assert((a + b).drop_first() =~= rest + b);
        lemma_encode_concat(rest, b);
    }
}

proof fn lemma_split_concat(a: Seq<char>, b: Seq<char>, c: char)
    requires
        b.len() > 0,
        forall|i: int| 0 <= i < b.len() - 1 ==> b[i] != c,
        b.last() == c,
    ensures
        text::split(a + b, c) == text::split(a, c).drop_last().push(
            text::split(a, c).last() + b.drop_last(),
        ).push(Seq::<char>::empty()),
{
    text::lemma_split_nonempty(a, c);
    text::lemma_split_plain(a, b.drop_last(), c);
    assert((a + b).drop_last() =~= a + b.drop_last());
}

/// A text that is empty or ends with a line feed ends no line midway.
pub open spec fn whole_lines(s: Seq<char>) -> bool {
    s.len() == 0 || s.last() == '\n'
}

proof fn lemma_whole_lines_split(s: Seq<char>)
    requires
        whole_lines(s),
    ensures
        text::split(s, '\n').last() == Seq::<char>::empty(),
{
    text::lemma_split_nonempty(s, '\n');
}

proof fn lemma_has_newline(s: Seq<u8>, i: int)
    requires
        0 <= i < s.len(),
        s[i] == NEWLINE,
    ensures
        first_newline(s) is Some,
    decreases s.len(),
{
    if s[0] != NEWLINE {
        let rest = s.subrange(1, s.len() as int);
        assert(rest[i - 1] == NEWLINE);
        lemma_has_newline(rest, i - 1);
    }
}

proof fn lemma_encode_newline()
    ensures
        encode_utf8(seq!['\n']) == seq![NEWLINE],
{
    reveal_with_fuel(encode_utf8, 3);
    assert(encode_scalar('\n' as u32) =~= seq![NEWLINE]) by {
        assert(0x0au8 == (0x0au32 & 0x7f) as u8) by (bit_vector);
    }
    assert(seq!['\n'].drop_first() =~= Seq::<char>::empty());
    assert(encode_utf8(seq!['\n']) =~= seq![NEWLINE]);
}

proof fn lemma_last_byte(content: Seq<u8>)
    requires
        content.len() > 0,
        valid_utf8(content),
        whole_lines(decode_utf8(content)),
    ensures
        content.last() == NEWLINE,
{
    let t = decode_utf8(content);
    decode_utf8_encode_utf8(content);
    assert(t.len() > 0);
    let front = t.drop_last();
    assert(t =~= front + seq!['\n']);
    lemma_encode_concat(front, seq!['\n']);
    lemma_encode_newline();
    assert(content == encode_utf8(front) + seq![NEWLINE]);
}

/// A line feed parts a valid text into two valid texts.
proof fn lemma_cut_after_newline(content: Seq<u8>, p: int)
    requires
        valid_utf8(content),
        0 <= p < content.len(),
        content[p] == NEWLINE,
    ensures
        valid_utf8(content.subrange(0, p)),
        valid_utf8(content.subrange(p + 1, content.len() as int)),
        decode_utf8(content) == decode_utf8(content.subrange(0, p)).push('\n') + decode_utf8(
            content.subrange(p + 1, content.len() as int),
        ),
{
    let n = content.len() as int;
    let b = content[p];
    assert(is_leading_byte_width_1(10) && !is_continuation_byte(10)) by {
        assert(10u8 & 0x80 == 0 && 10u8 & 0xC0 != 0x80 && 10u8 & 0x7f == 10) by (bit_vector);
    }
    is_char_boundary_iff_not_is_continuation_byte(content, p);
    valid_utf8_split(content, p);
    decode_utf8_split(content, p);
    let tail = content.subrange(p, n);
    assert(tail[0] == NEWLINE);
    assert(valid_first_scalar(tail));
    assert(length_of_first_scalar(tail) == 1);
    assert(pop_first_scalar(tail) =~= content.subrange(p + 1, n));
    assert(leading_bits_width_1(10) == 10) by {
        assert((10u8 & 0x7f) as u32 == 10u32) by (bit_vector);
    }
    assert(decode_first_scalar(tail) == 10);
    assert(decode_utf8(tail) == seq!['\n'] + decode_utf8(content.subrange(p + 1, n)));
    assert(decode_utf8(content) =~= decode_utf8(content.subrange(0, p)).push('\n') + decode_utf8(
        content.subrange(p + 1, n),
    ));
}

/// Bounding a log of whole lines drops its oldest lines only: the lines that
/// are left are the last ones it had, whole.
pub proof fn law_bounding_keeps_the_newest_lines(content: Seq<u8>, max: nat, keep: nat)
    requires
        keep > 0,
        valid_utf8(content),
        whole_lines(decode_utf8(content)),
    ensures
        valid_utf8(bounded(content, max, keep)),
        whole_lines(decode_utf8(bounded(content, max, keep))),
        log_texts(bounded(content, max, keep)).len() <= log_texts(content).len(),
        log_texts(bounded(content, max, keep)) == log_texts(content).subrange(
            log_texts(content).len() - log_texts(bounded(content, max, keep)).len(),
            log_texts(content).len() as int,
        ),
{
    let b = bounded(content, max, keep);
    if content.len() > max {
        let n = content.len() as int;
        let from = if content.len() > keep {
            content.len() - keep
        } else {
            0
        };
        let cut = content.subrange(from, n);
        lemma_last_byte(content);
        lemma_has_newline(cut, cut.len() - 1);
        lemma_first_newline(cut);
        let p = from + first_newline(cut).unwrap();
        assert(content[p] == NEWLINE);
        assert(b =~= content.subrange(p + 1, n));
        lemma_cut_after_newline(content, p);
        let t = decode_utf8(content);
        let pre = decode_utf8(content.subrange(0, p));
        let rest = decode_utf8(b);
        assert(t == pre.push('\n') + rest);
        assert(rest.len() > 0 ==> rest.last() == t.last());
        assert(whole_lines(rest));
        text::lemma_split_pieces(pre, rest, '\n');
        lemma_whole_lines_split(t);
        lemma_whole_lines_split(rest);
        text::lemma_split_nonempty(pre, '\n');
        text::lemma_split_nonempty(rest, '\n');
        let cr = |l: Seq<char>| text::without_cr(l);
        let front = text::split(pre, '\n');
        let back = text::split(rest, '\n');
        assert((front + back).drop_last() =~= front + back.drop_last());
        assert(log_texts(content) =~= front.map_values(cr) + log_texts(b));
    } else {
        assert(log_texts(b) =~= log_texts(content).subrange(0, log_texts(content).len() as int));
    }
}

/// Reading a log back after appending a line gives the lines that the bound
/// left of it, and then the new one: for a log of whole lines, and a line that
/// holds no line feed and ends in no carriage return.
pub proof fn law_append_then_read(content: Seq<u8>, line: Seq<char>, max: nat, keep: nat)
    requires
        keep > 0,
        valid_utf8(content),
        whole_lines(decode_utf8(content)),
        forall|i: int| 0 <= i < line.len() ==> line[i] != '\n',
        line.len() > 0 ==> line.last() != '\r',
    ensures
        valid_utf8(appended(content, line, max, keep)),
        whole_lines(decode_utf8(appended(content, line, max, keep))),
        log_texts(appended(content, line, max, keep)) == log_texts(
            bounded(content, max, keep),
        ).push(line),
{
    let kept = bounded(content, max, keep);
    law_bounding_keeps_the_newest_lines(content, max, keep);
    let old_text = decode_utf8(kept);
    let ended = line.push('\n');
    let new_text = old_text + ended;
    assert(encode_utf8(old_text) == kept) by {
        decode_utf8_encode_utf8(kept);
    }
    lemma_encode_newline();
    lemma_encode_concat(line, seq!['\n']);
    assert(line + seq!['\n'] =~= ended);
    lemma_encode_concat(old_text, ended);
    let new_content = appended(content, line, max, keep);
    assert(new_content =~= encode_utf8(new_text));
    encode_utf8_valid_utf8(new_text);
    encode_utf8_decode_utf8(new_text);
    assert(decode_utf8(new_content) == new_text);
    assert(ended.drop_last() =~= line);
    lemma_split_concat(old_text, ended, '\n');
    lemma_whole_lines_split(old_text);
    text::lemma_split_nonempty(old_text, '\n');
    let parts = text::split(old_text, '\n');
    let all = text::split(new_text, '\n');
    assert(Seq::<char>::empty() + line =~= line);
    assert(all.drop_last() =~= parts.drop_last().push(line));
    let cr = |l: Seq<char>| text::without_cr(l);
    assert(all.drop_last().map_values(cr) =~= parts.drop_last().map_values(cr).push(line));
    assert(new_text.last() == '\n');
}

/// A log within its cap is not cut. One beyond it keeps its newest bytes, as many
/// as are to be kept but for the line that is cut in two.
pub proof fn law_bounding_keeps_as_much_as_fits(content: Seq<u8>, max: nat, keep: nat, p: int)
    ensures
        content.len() <= max ==> bounded(content, max, keep) == content,
        content.len() > max && keep < content.len() && content.len() - keep <= p < content.len()
            && content[p] == 10 && (forall|q: int|
            content.len() - keep <= q < p ==> #[trigger] content[q] != 10) ==> bounded(
            content,
            max,
            keep,
        ) == content.skip(p + 1),
{
    if content.len() > max && keep < content.len() && content.len() - keep <= p < content.len()
        && content[p] == 10 && (forall|q: int|
        content.len() - keep <= q < p ==> #[trigger] content[q] != 10) {
        let from = content.len() - keep;
        let tail = content.subrange(from, content.len() as int);
        assert forall|q: int| 0 <= q < p - from implies #[trigger] tail[q] != 10 by {
            assert(tail[q] == content[from + q]);
        }
        lemma_first_newline_at(tail, p - from);
        assert(tail.subrange(p - from + 1, tail.len() as int) =~= content.skip(p + 1));
    }
}

proof fn lemma_first_newline_at(s: Seq<u8>, k: int)
    requires
        0 <= k < s.len(),
        s[k] == 10,
        forall|q: int| 0 <= q < k ==> #[trigger] s[q] != 10,
    ensures
        first_newline(s) == Some(k),
    decreases s.len(),
{
    if k > 0 {
        assert(s[0] != 10);
        let t = s.subrange(1, s.len() as int);
        assert forall|q: int| 0 <= q < k - 1 implies #[trigger] t[q] != 10 by {
            assert(t[q] == s[q + 1]);
        }
        lemma_first_newline_at(t, k - 1);
    }
}

/// A line is added at the end of what is kept, with a line feed behind it.
pub proof fn law_line_is_added_at_the_end(content: Seq<u8>, line: Seq<char>, max: nat, keep: nat)
    ensures
        appended(content, line, max, keep) == bounded(content, max, keep) + encode_utf8(line)
            + seq![10u8],
{
}

/// A log is read as its lines where it is text, and not at all where it is not.
pub proof fn law_log_is_read_by_lines(content: Seq<u8>)
    ensures
        valid_utf8(content) ==> log_texts(content) == text::lines(decode_utf8(content)),
        !valid_utf8(content) ==> log_texts(content).len() == 0,
{
}

} // verus!
