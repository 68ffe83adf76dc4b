//! Cutting the block of one device out of a report of the display tool.
//!
//! A report describes each device in a block of lines: a line that begins
//! with the name of the device, and the indented lines that follow it.

use vstd::prelude::*;

verus! {

/// Whether `c` indents a line: a space or a tab.
pub open spec fn is_indent(c: char) -> bool {
    c == ' ' || c == '\t'
}

/// Whether `device` can name a device: it is not empty, does not begin with
/// an indent, and stands on one line.
pub open spec fn is_name(device: Seq<char>) -> bool {
    &&& device.len() > 0
    &&& !is_indent(device[0])
    &&& forall|k: int| 0 <= k < device.len() ==> (#[trigger] device[k]) != '\n'
}

/// Whether a line of `text` begins at position `i`.
pub open spec fn is_line_start(text: Seq<char>, i: int) -> bool {
    0 <= i <= text.len() && (i == 0 || text[i - 1] == '\n')
}

/// Whether the line that begins at position `i` of `text` is the head of a
/// block of `device`: the name stands first on the line, and the line ends
/// after it or goes on with a space or a tab.
pub open spec fn is_header_at(text: Seq<char>, device: Seq<char>, i: int) -> bool {
    &&& is_name(device)
    &&& is_line_start(text, i)
    &&& i + device.len() <= text.len()
    &&& text.subrange(i, i + device.len()) == device
    &&& (i + device.len() == text.len() || text[i + device.len()] == '\n' || is_indent(
        text[i + device.len()],
    ))
}

/// Whether the first block of `device` in `text` begins at position `i`.
pub open spec fn is_first_header(text: Seq<char>, device: Seq<char>, i: int) -> bool {
    &&& is_header_at(text, device, i)
    &&& forall|j: int| 0 <= j < i ==> !is_header_at(text, device, j)
}

/// Where the first block of `device` begins in `text`, if there is one.
pub open spec fn header_of(text: Seq<char>, device: Seq<char>) -> Option<int> {
    if exists|i: int| is_first_header(text, device, i) {
        Some(choose|i: int| is_first_header(text, device, i))
    } else {
        None
    }
}

/// Whether the block that begins at `start` ends before position `end`:
/// every line that begins between the two is indented, and at `end` the
/// text ends or a line begins that is not indented.
pub open spec fn is_block_end(text: Seq<char>, start: int, end: int) -> bool {
    &&& start < end <= text.len()
    &&& (end == text.len() || (text[end - 1] == '\n' && !is_indent(text[end])))
    &&& forall|j: int| start < j < end && text[j - 1] == '\n' ==> is_indent(#[trigger] text[j])
}

/// Where the block that begins at `start` ends.
pub open spec fn block_end(text: Seq<char>, start: int) -> int {
    choose|end: int| is_block_end(text, start, end)
}

/// The first block of `device` in `text`: its head line and the indented
/// lines that follow, line ends included. `None` where no line begins with
/// the name.
pub open spec fn block_of(text: Seq<char>, device: Seq<char>) -> Option<Seq<char>> {
    match header_of(text, device) {
        Some(start) => Some(text.subrange(start, block_end(text, start))),
        None => None,
    }
}

/// Whether `part` stands in `whole` as one piece.
pub open spec fn occurs_in(part: Seq<char>, whole: Seq<char>) -> bool {
    exists|from: int, to: int|
        0 <= from <= to <= whole.len() && #[trigger] whole.subrange(from, to) == part
}

/// The text of an optional string slice.
pub open spec fn slice_text(text: Option<&str>) -> Option<Seq<char>> {
    match text {
        Some(t) => Some(t@),
        None => None,
    }
}

/// No block begins before the first one.
pub proof fn lemma_first_header_unique(text: Seq<char>, device: Seq<char>, i: int)
    requires
        is_first_header(text, device, i),
    ensures
        header_of(text, device) == Some(i),
{
    let k = choose|k: int| is_first_header(text, device, k);
    assert(is_first_header(text, device, k));
    if k < i {
        assert(!is_header_at(text, device, k));
    }
    if i < k {
        assert(!is_header_at(text, device, i));
    }
}

/// A block ends in one place only.
pub proof fn lemma_block_end_unique(text: Seq<char>, start: int, end: int)
    requires
        is_block_end(text, start, end),
    ensures
        block_end(text, start) == end,
{
    let other = block_end(text, start);
    assert(is_block_end(text, start, other));
    if other < end {
        assert(is_indent(text[other]));
    }
    if end < other {
        assert(is_indent(text[end]));
    }
}

/// The block of a device begins with the name of the device, and is a piece
/// of the report.
pub proof fn lemma_block_begins_with_name(text: Seq<char>, device: Seq<char>)
    requires
        block_of(text, device) is Some,
    ensures
        device.len() <= block_of(text, device)->0.len(),
        block_of(text, device)->0.subrange(0, device.len() as int) == device,
        occurs_in(block_of(text, device)->0, text),
{
    let start = header_of(text, device)->0;
    assert(is_first_header(text, device, start));
    lemma_block_exists(text, start);
    let end = block_end(text, start);
    assert(is_block_end(text, start, end));
    lemma_block_holds_head_line(text, device, start, end);
    let block = text.subrange(start, end);
    assert(block.subrange(0, device.len() as int) =~= text.subrange(start, start + device.len()));
    assert(text.subrange(start, end) == block);
}

/// A piece of a piece of a text is a piece of the text.
pub proof fn lemma_piece_of_piece(inner: Seq<char>, middle: Seq<char>, outer: Seq<char>)
    requires
        occurs_in(inner, middle),
        occurs_in(middle, outer),
    ensures
        occurs_in(inner, outer),
{
    let (a, b) = choose|a: int, b: int|
        0 <= a <= b <= middle.len() && #[trigger] middle.subrange(a, b) == inner;
    let (c, e) = choose|c: int, e: int|
        0 <= c <= e <= outer.len() && #[trigger] outer.subrange(c, e) == middle;
    assert(outer.subrange(c + a, c + b) =~= inner);
}

/// A block does not end inside its head line.
proof fn lemma_block_holds_head_line(text: Seq<char>, device: Seq<char>, start: int, end: int)
    requires
        is_header_at(text, device, start),
        is_block_end(text, start, end),
    ensures
        start + device.len() <= end,
{
    if end < start + device.len() {
        assert(text[end - 1] == '\n');
        assert(text.subrange(start, start + device.len())[end - 1 - start] == text[end - 1]);
        assert(device[end - 1 - start] != '\n');
    }
}

/// Every block that begins inside the text ends somewhere.
proof fn lemma_block_exists(text: Seq<char>, start: int)
    requires
        0 <= start < text.len(),
    ensures
        exists|end: int| is_block_end(text, start, end),
{
    lemma_block_ends_from(text, start, start + 1);
}

/// A block whose lines are indented as far as `from` ends somewhere.
proof fn lemma_block_ends_from(text: Seq<char>, start: int, from: int)
    requires
        0 <= start < from <= text.len(),
        forall|j: int| start < j < from && text[j - 1] == '\n' ==> is_indent(#[trigger] text[j]),
    ensures
        exists|end: int| is_block_end(text, start, end),
    decreases text.len() - from,
{
    if from == text.len() {
        assert(is_block_end(text, start, from));
    } else if text[from - 1] == '\n' && !is_indent(text[from]) {
        assert(is_block_end(text, start, from));
    } else {
        lemma_block_ends_from(text, start, from + 1);
    }
}

/// The characters of a text, one by one.
fn chars_of(text: &str) -> (chars: Vec<char>)
    ensures
        chars@ == text@,
{
    let mut chars: Vec<char> = Vec::new();
    for c in it: text.chars()
        invariant
            it.seq() == text@,
            chars@ == it.seq().take(it.index()),
    {
        chars.push(c);
    }
    chars
}

/// Whether `c` is a space or a tab.
fn indents(c: char) -> (b: bool)
    ensures
        b == is_indent(c),
{
    c == ' ' || c == '\t'
}

/// Whether `name` can name a device.
fn names_device(name: &Vec<char>) -> (b: bool)
    ensures
        b == is_name(name@),
{
    if name.len() == 0 || indents(name[0]) {
        return false;
    }
    let mut k: usize = 0;
    while k < name.len()
        invariant
            k <= name.len(),
            forall|j: int| 0 <= j < k ==> (#[trigger] name@[j]) != '\n',
        decreases name.len() - k,
    {
        if name[k] == '\n' {
            return false;
        }
        k += 1;
    }
    true
}

/// Whether `name` stands in `chars` from position `at` on.
fn begins_with(chars: &Vec<char>, name: &Vec<char>, at: usize) -> (b: bool)
    requires
        at <= chars.len(),
    ensures
        b == (at + name.len() <= chars.len() && chars@.subrange(at as int, at + name.len())
            == name@),
{
    let m = name.len();
    if m > chars.len() - at {
        return false;
    }
    let mut k: usize = 0;
    while k < m
        invariant
            m == name.len(),
            at + m <= chars.len(),
            k <= m,
            forall|j: int| 0 <= j < k ==> chars@[at + j] == #[trigger] name@[j],
        decreases m - k,
    {
        if chars[at + k] != name[k] {
            proof {
                assert(chars@.subrange(at as int, at + m)[k as int] == chars@[at + k]);
            }
            return false;
        }
        k += 1;
    }
    assert(chars@.subrange(at as int, at + m) =~= name@);
    true
}

/// The position at which the line after the one around `from` begins, or
/// the length of the text where no line follows.
fn next_line(chars: &Vec<char>, from: usize) -> (next: usize)
    requires
        from < chars.len(),
    ensures
        from < next <= chars.len(),
        forall|k: int| from < k < next ==> (#[trigger] chars@[k - 1]) != '\n',
        next < chars.len() ==> chars@[next - 1] == '\n',
{
    let n = chars.len();
    let mut end: usize = from;
    while end < n && chars[end] != '\n'
        invariant
            n == chars.len(),
            from <= end <= n,
            forall|k: int| from <= k < end ==> (#[trigger] chars@[k]) != '\n',
        decreases n - end,
    {
        end += 1;
    }
    if end < n {
        end + 1
    } else {
        n
    }
}

/// Finds the end of the block that begins at `start`.
fn find_block_end(chars: &Vec<char>, start: usize) -> (end: usize)
    requires
        start < chars.len(),
    ensures
        is_block_end(chars@, start as int, end as int),
{
    let n = chars.len();
    let mut end: usize = next_line(chars, start);
    while end < n && indents(chars[end])
        invariant
            n == chars.len(),
            start < end <= n,
            end < n ==> chars@[end - 1] == '\n',
            forall|j: int|
                start < j < end && chars@[j - 1] == '\n' ==> is_indent(#[trigger] chars@[j]),
        decreases n - end,
    {
        let next = next_line(chars, end);
        proof {
            assert forall|j: int| start < j < next && chars@[j - 1] == '\n' implies is_indent(
                #[trigger] chars@[j],
            ) by {
                if j > end {
                    assert(chars@[j - 1] != '\n');
                }
            }
        }
        end = next;
    }
    end
}

/// Cuts the first block of the device out of the report: the first line
/// that begins with the name of the device, and the indented lines that
/// follow it. The name must stand first on its line and end there or be
/// followed by a space or a tab, so that `DP-1` finds no block in a report
/// on `eDP-1` or on `DP-10`. `None` where the report has no such line.
pub fn device_block<'a>(text: &'a str, device_id: &str) -> (block: Option<&'a str>)
    ensures
        slice_text(block) == block_of(text@, device_id@),
{
    let chars = chars_of(text);
    let name = chars_of(device_id);
    let ghost t = text@;
    let ghost d = device_id@;
    if !names_device(&name) {
        proof {
            assert forall|j: int| !is_first_header(t, d, j) by {}
        }
        return None;
    }
    let n = chars.len();
    let m = name.len();
    let mut i: usize = 0;
    while i < n
        invariant
            n == t.len(),
            m == d.len(),
            t == chars@,
            d == name@,
            t == text@,
            d == device_id@,
            is_name(d),
            i <= n,
            i < n ==> is_line_start(t, i as int),
            forall|j: int| 0 <= j < i ==> !is_header_at(t, d, j),
        decreases n - i,
    {
        if begins_with(&chars, &name, i) && (i + m == n || chars[i + m] == '\n' || indents(
            chars[i + m],
        )) {
            proof {
                assert(is_first_header(t, d, i as int));
                lemma_first_header_unique(t, d, i as int);
            }
            let end = find_block_end(&chars, i);
            proof {
                lemma_block_end_unique(t, i as int, end as int);
            }
            return Some(text.substring_char(i, end));
        }
        let next = next_line(&chars, i);
        proof {
            assert forall|j: int| 0 <= j < next implies !is_header_at(t, d, j) by {
                if j > i {
                    assert(t[j - 1] != '\n');
                }
            }
        }
        i = next;
    }
    proof {
        assert forall|j: int| !is_first_header(t, d, j) by {}
    }
    None
}

} // verus!
