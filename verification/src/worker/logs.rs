//! Container logs: the text the GUI keeps of them, and the page of it that
//! the logs view shows.
use vstd::prelude::*;
use vstd::string::*;
use vstd::utf8::*;

verus! {

broadcast use vstd::utf8::group_utf8_lib;

/// The events of the task that collects the logs of a container.
#[derive(Debug, PartialEq, Eq, Structural, Clone, Copy)]
pub enum LogWorkerEvent {
    PollData,
    Kill,
}

/// What `strip_ansi_escapes::strip` gives for `bytes`: `Some` of the bytes
/// without their ANSI escape sequences, or `None` where it fails.
pub uninterp spec fn ansi_stripped(bytes: Seq<u8>) -> Option<Seq<u8>>;

/// Bytes that are printable ASCII characters or line feeds.
pub open spec fn plain_text_bytes(bytes: Seq<u8>) -> bool {
    forall|i: int| 0 <= i < bytes.len() ==> (0x20 <= #[trigger] bytes[i] <= 0x7e || bytes[i] == 0x0a)
}

/// Calls `strip_ansi_escapes::strip`, turning its error into `None`.
///
/// The contract claims that the result depends on `bytes` alone; that what
/// it gives is valid UTF-8 (the crate writes every character it keeps with
/// `write!` of a `char`, and line feeds with `writeln!`); and that printable
/// ASCII text and line feeds come out unchanged (the parser prints them, as the
/// crate's tests show for `foo\nbar\n`). It says nothing of which sequences
/// count as escapes.
#[verifier::external_body]
fn strip_ansi(bytes: &[u8]) -> (r: Option<Vec<u8>>)
    ensures
        match r {
            Some(v) => {
                &&& ansi_stripped(bytes@) == Some(v@)
                &&& valid_utf8(v@)
                &&& plain_text_bytes(bytes@) ==> v@ == bytes@
            },
            None => ansi_stripped(bytes@) is None && !plain_text_bytes(bytes@),
        },
{
    strip_ansi_escapes::strip(bytes).ok()
}

/// What `String::from_utf8_lossy` gives for `bytes`.
pub uninterp spec fn utf8_lossy(bytes: Seq<u8>) -> Seq<char>;

/// Calls `String::from_utf8_lossy`. The contract claims that the result
/// depends on `bytes` alone, and that valid UTF-8 is decoded as it is, as the
/// documentation says.
#[verifier::external_body]
fn from_utf8_lossy(bytes: &[u8]) -> (r: String)
    ensures
        r@ == utf8_lossy(bytes@),
        valid_utf8(bytes@) ==> r@ == decode_utf8(bytes@),
{
    String::from_utf8_lossy(bytes).to_string()
}

/// The chunks of bytes one after the other.
pub open spec fn concat_chunks(chunks: Seq<Vec<u8>>) -> Seq<u8>
    decreases chunks.len(),
{
    if chunks.len() == 0 {
        Seq::empty()
    } else {
        concat_chunks(chunks.drop_last()) + chunks.last()@
    }
}

/// The text of log bytes as the GUI shows it: without ANSI escapes (or as
/// they are, where stripping fails), decoded with invalid UTF-8 replaced.
pub open spec fn log_text(raw: Seq<u8>) -> Seq<char> {
    utf8_lossy(
        match ansi_stripped(raw) {
            Some(v) => v,
            None => raw,
        },
    )
}

/// Appends the text of the log chunks that the worker sent to the logs kept
/// so far (the GUI's handling of a logs answer).
pub fn append_logs(current: &mut Option<String>, chunks: &Vec<Vec<u8>>)
    ensures
        *final(current) matches Some(s) && s@ == match *old(current) {
            Some(o) => o@,
            None => Seq::<char>::empty(),
        } + log_text(concat_chunks(chunks@)),
        plain_text_bytes(concat_chunks(chunks@)) ==> log_text(concat_chunks(chunks@))
            == concat_chunks(chunks@).map_values(|b: u8| b as char),
{
    let mut raw: Vec<u8> = Vec::new();
    let mut i: usize = 0;
    while i < chunks.len()
        invariant
            i <= chunks@.len(),
            raw@ == concat_chunks(chunks@.take(i as int)),
        decreases chunks@.len() - i,
    {
        let chunk = &chunks[i];
        let ghost r0 = raw@;
        let mut j: usize = 0;
        while j < chunk.len()
            invariant
                j <= chunk@.len(),
                raw@ == r0 + chunk@.take(j as int),
            decreases chunk@.len() - j,
        {
            raw.push(chunk[j]);
            assert(raw@ =~= r0 + chunk@.take(j as int + 1));
            j = j + 1;
        }
        assert(chunk@.take(j as int) =~= chunk@);
        assert(chunks@.take(i as int + 1).drop_last() =~= chunks@.take(i as int));
        i = i + 1;
    }
    assert(chunks@.take(i as int) =~= chunks@);
    proof {
        if plain_text_bytes(raw@) {
            lemma_plain_bytes_decode(raw@);
        }
    }
    let text = match strip_ansi(raw.as_slice()) {
        Some(stripped) => from_utf8_lossy(stripped.as_slice()),
        None => from_utf8_lossy(raw.as_slice()),
    };
    match current {
        Some(s) => {
            s.append(text.as_str());
        },
        None => {
            *current = Some(text);
        },
    }
}

proof fn lemma_plain_bytes_decode(raw: Seq<u8>)
    requires
        plain_text_bytes(raw),
    ensures
        valid_utf8(raw),
        decode_utf8(raw) == raw.map_values(|b: u8| b as char),
{
    let chars = raw.map_values(|b: u8| b as char);
    assert(is_ascii_chars(chars)) by {
        assert forall|i: int| 0 <= i < chars.len() implies '\0' <= #[trigger] chars[i] <= '\u{7f}' by {
            assert(raw[i] < 128);
        }
    }
    is_ascii_chars_encode_utf8(chars);
    assert forall|i: int| 0 <= i < raw.len() implies #[trigger] encode_utf8(chars)[i] == raw[i] by {
        assert(chars[i] as u8 == encode_utf8(chars)[i]);
        let b = raw[i];
        assert((b as char) as u8 == b);
    }
    assert(encode_utf8(chars) =~= raw);
}

/// The number of lines that the logs view shows on one page.
pub const PAGE_SIZE: usize = 1024;

/// The line breaks that ropey recognises with its default features: LF, VT,
/// FF, CR, NEL, LINE SEPARATOR and PARAGRAPH SEPARATOR.
pub open spec fn is_line_break(c: char) -> bool {
    c == '\n' || c == '\x0B' || c == '\x0C' || c == '\r' || c == '\u{85}' || c == '\u{2028}'
        || c == '\u{2029}'
}

/// A line break ends at the first character of `t`: a break character that
/// is not the CR of a CRLF pair (which counts as one break, ending at its LF).
pub open spec fn break_at_front(t: Seq<char>) -> bool {
    t.len() > 0 && is_line_break(t[0]) && !(t[0] == '\r' && t.len() > 1 && t[1] == '\n')
}

/// The number of line breaks in `t`.
pub open spec fn line_breaks(t: Seq<char>) -> nat
    decreases t.len(),
{
    if t.len() == 0 {
        0
    } else {
        (if break_at_front(t) {
            1nat
        } else {
            0nat
        }) + line_breaks(t.drop_first())
    }
}

/// The number of lines of `t`, as ropey counts them: one more than its line
/// breaks.
pub open spec fn line_count(t: Seq<char>) -> nat {
    line_breaks(t) + 1
}

/// The index of the character that starts line `k` of `t`; for the line
/// after the last one, the length of `t`.
pub open spec fn line_start(t: Seq<char>, k: nat) -> nat
    decreases t.len(),
{
    if k == 0 || t.len() == 0 {
        0
    } else if break_at_front(t) {
        1 + line_start(t.drop_first(), (k - 1) as nat)
    } else {
        1 + line_start(t.drop_first(), k)
    }
}

/// The byte offset at which character `i` of `t` starts.
pub open spec fn byte_offset(t: Seq<char>, i: int) -> nat {
    encode_utf8(t.take(i)).len()
}

#[verifier::external_type_specification]
#[verifier::external_body]
pub struct ExRope(ropey::Rope);

/// The text that a rope holds.
pub uninterp spec fn rope_chars(r: ropey::Rope) -> Seq<char>;

/// Calls `ropey::Rope::from_str`; the rope holds the text of `s`.
#[verifier::external_body]
fn rope_from_str(s: &str) -> (r: ropey::Rope)
    ensures
        rope_chars(r) == s@,
{
    ropey::Rope::from_str(s)
}

/// Calls `ropey::Rope::len_lines`: one more than the number of line
/// breaks, with the line breaks that ropey's crate documentation lists for
/// its default features and CRLF counted once.
#[verifier::external_body]
fn rope_len_lines(r: &ropey::Rope) -> (n: usize)
    ensures
        n == line_count(rope_chars(*r)),
{
    r.len_lines()
}

/// Calls `ropey::Rope::line_to_byte`: the byte index of the start of line
/// `line` (the length in bytes for the line after the last one). It panics
/// past that line, which `requires` leaves out.
#[verifier::external_body]
fn rope_line_to_byte(r: &ropey::Rope, line: usize) -> (n: usize)
    requires
        line <= line_count(rope_chars(*r)),
    ensures
        n == byte_offset(rope_chars(*r), line_start(rope_chars(*r), line as nat) as int),
{
    r.line_to_byte(line)
}

proof fn lemma_line_start_bound(t: Seq<char>, k: nat)
    ensures
        line_start(t, k) <= t.len(),
        k <= line_breaks(t) ==> (k > 0 ==> line_start(t, k) >= 1),
    decreases t.len(),
{
    if k == 0 || t.len() == 0 {
    } else if break_at_front(t) {
        lemma_line_start_bound(t.drop_first(), (k - 1) as nat);
    } else {
        lemma_line_start_bound(t.drop_first(), k);
    }
}

proof fn lemma_line_start_monotone(t: Seq<char>, j: nat, k: nat)
    requires
        j <= k,
    ensures
        line_start(t, j) <= line_start(t, k),
    decreases t.len(),
{
    lemma_line_start_bound(t, k);
    if j == 0 || t.len() == 0 {
    } else if break_at_front(t) {
        lemma_line_start_monotone(t.drop_first(), (j - 1) as nat, (k - 1) as nat);
    } else {
        lemma_line_start_monotone(t.drop_first(), j, k);
    }
}

proof fn lemma_encode_concat(a: Seq<char>, b: Seq<char>)
    ensures
        encode_utf8(a + b) == encode_utf8(a) + encode_utf8(b),
    decreases a.len(),
{
    if a.len() == 0 {
        assert(a + b =~= b);
    } else {
        assert((a + b).drop_first() =~= a.drop_first() + b);
        lemma_encode_concat(a.drop_first(), b);
        assert(encode_utf8(a + b) =~= encode_scalar(a[0] as u32) + encode_utf8(
            a.drop_first() + b,
        ));
    }
}

proof fn lemma_encode_split(t: Seq<char>, i: int, j: int)
    requires
        0 <= i <= j <= t.len(),
    ensures
        encode_utf8(t).subrange(byte_offset(t, i) as int, byte_offset(t, j) as int) == encode_utf8(
            t.subrange(i, j),
        ),
        byte_offset(t, j) <= encode_utf8(t).len(),
{
    assert(t =~= t.take(i) + t.subrange(i, j) + t.skip(j));
    assert(t.take(j) =~= t.take(i) + t.subrange(i, j));
    lemma_encode_concat(t.take(i), t.subrange(i, j));
    lemma_encode_concat(t.take(i) + t.subrange(i, j), t.skip(j));
    assert(encode_utf8(t).subrange(byte_offset(t, i) as int, byte_offset(t, j) as int)
        =~= encode_utf8(t.subrange(i, j)));
}

proof fn lemma_offset_is_boundary(t: Seq<char>, i: int)
    requires
        0 <= i <= t.len(),
    ensures
        is_char_boundary(encode_utf8(t), byte_offset(t, i) as int),
    decreases t.len(),
{
    if i == 0 {
        assert(t.take(0) =~= Seq::<char>::empty());
    } else {
        let b = encode_utf8(t);
        encode_utf8_first_scalar(t);
        assert(pop_first_scalar(b) =~= encode_utf8(t.drop_first()));
        assert(t.take(i) =~= seq![t[0]] + t.drop_first().take(i - 1));
        lemma_encode_concat(seq![t[0]], t.drop_first().take(i - 1));
        let one = seq![t[0]];
        assert(one.drop_first() =~= Seq::<char>::empty());
        assert(encode_utf8(one.drop_first()) =~= Seq::<u8>::empty());
        assert(encode_utf8(one) == encode_scalar(one[0] as u32) + encode_utf8(one.drop_first()));
        assert(encode_utf8(one) =~= encode_scalar(t[0] as u32));
        lemma_offset_is_boundary(t.drop_first(), i - 1);
        lemma_encode_split(t, 0, i);
    }
}

/// Cuts the characters `i..j` of `s` out by their byte offsets.
fn cut_bytes<'a>(s: &'a str, i: Ghost<int>, j: Ghost<int>, from: usize, to: usize) -> (r: &'a str)
    requires
        0 <= i@ <= j@ <= s@.len(),
        from == byte_offset(s@, i@),
        to == byte_offset(s@, j@),
    ensures
        r@ == s@.subrange(i@, j@),
{
    proof {
        lemma_offset_is_boundary(s@, i@);
        lemma_offset_is_boundary(s@, j@);
        lemma_encode_split(s@, 0, i@);
        lemma_encode_split(s@, i@, j@);
        lemma_encode_split(s@, j@, s@.len() as int);
        assert(s@.take(s@.len() as int) =~= s@);
    }
    let (_, rest) = s.split_at(from);
    proof {
        assert(s@.skip(i@) =~= s@.subrange(i@, s@.len() as int));
        lemma_encode_split(s@, i@, s@.len() as int);
        assert(rest.spec_bytes() =~= encode_utf8(s@.subrange(i@, s@.len() as int)));
        assert(decode_utf8(encode_utf8(rest@)) == rest@);
        assert(rest@ == s@.subrange(i@, s@.len() as int));
        let u = rest@;
        assert(u.take(j@ - i@) =~= s@.subrange(i@, j@));
        lemma_offset_is_boundary(u, j@ - i@);
        assert(byte_offset(u, j@ - i@) == to - from) by {
            lemma_encode_split(s@, i@, j@);
            assert(s@.take(j@) =~= s@.take(i@) + s@.subrange(i@, j@));
            lemma_encode_concat(s@.take(i@), s@.subrange(i@, j@));
        }
    }
    let (r, _) = rest.split_at(to - from);
    proof {
        let u = rest@;
        lemma_encode_split(u, 0, j@ - i@);
        assert(u.take(0) =~= Seq::<char>::empty());
        assert(u.subrange(0, j@ - i@) =~= s@.subrange(i@, j@));
        assert(decode_utf8(encode_utf8(r@)) == r@);
    }
    r
}

/// The number of pages of logs with `lines` lines, less one: the last page
/// that the page selector offers.
pub open spec fn max_page(lines: nat) -> nat {
    lines / PAGE_SIZE as nat
}

/// The page of logs the view shows; see `log_page`.
pub open spec fn page_lines(lines: nat, page: nat, follow: bool) -> (nat, nat) {
    let cur: nat = page * PAGE_SIZE as nat;
    if follow {
        (if lines >= PAGE_SIZE {
            (lines - PAGE_SIZE) as nat
        } else {
            0
        }, lines)
    } else if cur + PAGE_SIZE > lines {
        ((lines - PAGE_SIZE) as nat, lines)
    } else {
        (cur, cur + PAGE_SIZE as nat)
    }
}

/// The page of the logs that the logs view shows, and the page selected
/// after it. Following the logs selects the last page and shows the last
/// `PAGE_SIZE` lines; otherwise the view shows the `PAGE_SIZE` lines of the
/// selected page, or, where they run past the end, the last `PAGE_SIZE`
/// lines. Where the logs have fewer lines than a page, the view (unless it
/// follows) computes a line before the first one and cannot show it, so
/// `requires` leaves that out. The first line of the page must fit in a
/// `usize`, and unless the view follows, the line after the page too.
pub fn log_page<'a>(logs: &'a str, page: usize, follow: bool) -> (r: (usize, &'a str))
    requires
        page * PAGE_SIZE <= usize::MAX,
        !follow ==> page * PAGE_SIZE + PAGE_SIZE <= usize::MAX,
        follow || page * PAGE_SIZE + PAGE_SIZE <= line_count(logs@) || line_count(logs@)
            >= PAGE_SIZE,
    ensures
        r.0 == (if follow {
            max_page(line_count(logs@))
        } else {
            page as nat
        }),
        ({
            let (first, last) = page_lines(line_count(logs@), page as nat, follow);
            r.1@ == logs@.subrange(
                line_start(logs@, first) as int,
                line_start(logs@, last) as int,
            )
        }),
{
    let rope = rope_from_str(logs);
    let len_lines = rope_len_lines(&rope);
    let max_page = len_lines / PAGE_SIZE;
    let cur_line = page * PAGE_SIZE;
    let ghost t = logs@;
    proof {
        lemma_line_start_bound(t, len_lines as nat);
        assert(line_start(t, len_lines as nat) == t.len()) by {
            lemma_line_start_end(t);
        }
    }
    let end = rope_line_to_byte(&rope, len_lines);
    if follow {
        let first = if len_lines >= PAGE_SIZE {
            len_lines - PAGE_SIZE
        } else {
            0
        };
        let start = rope_line_to_byte(&rope, first);
        proof {
            lemma_line_start_monotone(t, first as nat, len_lines as nat);
        }
        let s = cut_bytes(
            logs,
            Ghost(line_start(t, first as nat) as int),
            Ghost(t.len() as int),
            start,
            end,
        );
        (max_page, s)
    } else if cur_line + PAGE_SIZE > len_lines {
        let first = cur_line - (cur_line + PAGE_SIZE - len_lines);
        let start = rope_line_to_byte(&rope, first);
        proof {
            lemma_line_start_monotone(t, first as nat, len_lines as nat);
        }
        let s = cut_bytes(
            logs,
            Ghost(line_start(t, first as nat) as int),
            Ghost(t.len() as int),
            start,
            end,
        );
        (page, s)
    } else {
        let start = rope_line_to_byte(&rope, cur_line);
        let stop = rope_line_to_byte(&rope, cur_line + PAGE_SIZE);
        proof {
            lemma_line_start_monotone(t, cur_line as nat, (cur_line + PAGE_SIZE) as nat);
            lemma_line_start_bound(t, (cur_line + PAGE_SIZE) as nat);
        }
        let s = cut_bytes(
            logs,
            Ghost(line_start(t, cur_line as nat) as int),
            Ghost(line_start(t, (cur_line + PAGE_SIZE) as nat) as int),
            start,
            stop,
        );
        (page, s)
    }
}

proof fn lemma_line_start_end(t: Seq<char>)
    ensures
        line_start(t, line_count(t)) == t.len(),
    decreases t.len(),
{
    if t.len() > 0 {
        lemma_line_start_end(t.drop_first());
    }
}


/// Law: the lines the logs view shows. Following the logs shows the last
/// 1024 lines (all of them where there are fewer) and selects the page that
/// holds the last line. Otherwise a page shows its own 1024 lines, from line
/// `page * 1024` on, where they all exist; a page that runs past the end
/// shows the last 1024 lines instead. Every page shown is 1024 lines long,
/// unless the logs are shorter and followed.
pub proof fn lemma_page_lines(lines: nat, page: nat)
    ensures
        page_lines(lines, page, true) == (if lines >= 1024 {
            (lines - 1024) as nat
        } else {
            0
        }, lines),
        max_page(lines) * 1024 <= lines < max_page(lines) * 1024 + 1024,
        page * 1024 + 1024 <= lines ==> page_lines(lines, page, false) == (
            page * 1024,
            page * 1024 + 1024,
        ),
        page * 1024 + 1024 > lines && lines >= 1024 ==> page_lines(lines, page, false) == (
            (lines - 1024) as nat,
            lines,
        ),
        lines >= 1024 ==> ({
            let (first, last) = page_lines(lines, page, false);
            last - first == 1024 && last <= lines
        }),
{
}

} // verus!
