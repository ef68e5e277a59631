//! Text primitives: comparison, splitting, trimming, joining and decimal numerals.

use vstd::prelude::*;
use vstd::string::*;
use vstd::utf8::*;

verus! {

/// The characters that carry the Unicode `White_Space` property.
pub open spec fn is_white_space(c: char) -> bool {
    let n = c as u32;
    ||| 0x09 <= n <= 0x0d
    ||| n == 0x20
    ||| n == 0x85
    ||| n == 0xa0
    ||| n == 0x1680
    ||| 0x2000 <= n <= 0x200a
    ||| n == 0x2028
    ||| n == 0x2029
    ||| n == 0x202f
    ||| n == 0x205f
    ||| n == 0x3000
}

/// `text` without its leading and trailing white space.
pub open spec fn trimmed(text: Seq<char>) -> Seq<char>
    decreases text.len(),
{
    if text.len() > 0 && is_white_space(text.first()) {
        trimmed(text.drop_first())
    } else if text.len() > 0 && is_white_space(text.last()) {
        trimmed(text.drop_last())
    } else {
        text
    }
}

/// `delimiter` stands in `text` at position `at`.
pub open spec fn occurs_at(text: Seq<char>, delimiter: Seq<char>, at: int) -> bool {
    &&& 0 <= at
    &&& at + delimiter.len() <= text.len()
    &&& text.subrange(at, at + delimiter.len()) == delimiter
}

/// `at` is the first position at which `delimiter` stands in `text`.
pub open spec fn first_at(text: Seq<char>, delimiter: Seq<char>, at: int) -> bool {
    &&& occurs_at(text, delimiter, at)
    &&& forall|j: int| 0 <= j < at ==> !#[trigger] occurs_at(text, delimiter, j)
}

/// What stands before and after the first `delimiter` of `text`; `None` where there is none.
pub open spec fn split_first(text: Seq<char>, delimiter: Seq<char>) -> Option<
    (Seq<char>, Seq<char>),
> {
    if exists|at: int| first_at(text, delimiter, at) {
        let at = choose|at: int| first_at(text, delimiter, at);
        Some((text.take(at), text.skip(at + delimiter.len())))
    } else {
        None
    }
}

/// The pieces of `text` between its occurrences of `delimiter`, which is not empty.
pub open spec fn pieces(text: Seq<char>, delimiter: Seq<char>) -> Seq<Seq<char>>
    decreases text.len(),
{
    match split_first(text, delimiter) {
        Some((head, tail)) => if tail.len() < text.len() {
            seq![head] + pieces(tail, delimiter)
        } else {
            seq![text]
        },
        None => seq![text],
    }
}

/// `parts` one after the other with `separator` between neighbours.
pub open spec fn joined(parts: Seq<Seq<char>>, separator: Seq<char>) -> Seq<char>
    decreases parts.len(),
{
    if parts.len() == 0 {
        Seq::empty()
    } else if parts.len() == 1 {
        parts[0]
    } else {
        joined(parts.drop_last(), separator) + separator + parts.last()
    }
}

/// The decimal digit with value `d`.
pub open spec fn digit(d: nat) -> char {
    if d == 0 {
        '0'
    } else if d == 1 {
        '1'
    } else if d == 2 {
        '2'
    } else if d == 3 {
        '3'
    } else if d == 4 {
        '4'
    } else if d == 5 {
        '5'
    } else if d == 6 {
        '6'
    } else if d == 7 {
        '7'
    } else if d == 8 {
        '8'
    } else {
        '9'
    }
}

/// The decimal numeral of `n`, without leading zeros.
pub open spec fn decimal(n: nat) -> Seq<char>
    decreases n,
{
    if n < 10 {
        seq![digit(n)]
    } else {
        decimal(n / 10).push(digit(n % 10))
    }
}

/// The decimal numeral of `n`, with a leading minus sign where `n` is negative.
pub open spec fn signed_decimal(n: int) -> Seq<char> {
    if n < 0 {
        "-"@ + decimal((-n) as nat)
    } else {
        decimal(n as nat)
    }
}

/// The number that the decimal digit `c` stands for.
pub open spec fn digit_value(c: char) -> nat {
    (c as u32 - '0' as u32) as nat
}

/// The number that a sequence of decimal digits stands for.
pub open spec fn decimal_value(text: Seq<char>) -> nat
    decreases text.len(),
{
    if text.len() == 0 {
        0
    } else {
        decimal_value(text.drop_last()) * 10 + digit_value(text.last())
    }
}

/// The number of bytes that a text takes in UTF-8.
pub open spec fn byte_len(text: Seq<char>) -> nat {
    encode_utf8(text).len()
}

/// The longest beginning of `text` that takes at most `limit` bytes in UTF-8.
pub open spec fn fitting(text: Seq<char>, limit: nat) -> Seq<char>
    decreases text.len(),
{
    if text.len() == 0 || byte_len(text) <= limit {
        text
    } else {
        fitting(text.drop_last(), limit)
    }
}

/// The views of the items of a sequence.
pub open spec fn views<T: View>(items: Seq<T>) -> Seq<T::V> {
    items.map_values(|item: T| item@)
}

/// The view of an optional value.
pub open spec fn opt_view<T: View>(item: Option<T>) -> Option<T::V> {
    match item {
        Some(value) => Some(value@),
        None => None,
    }
}

/// There is one first occurrence at most, so it determines the split.
pub proof fn lemma_split_first(text: Seq<char>, delimiter: Seq<char>, at: int)
    requires
        first_at(text, delimiter, at),
    ensures
        split_first(text, delimiter) == Some((text.take(at), text.skip(at + delimiter.len()))),
{
    let chosen = choose|i: int| first_at(text, delimiter, i);
    assert(first_at(text, delimiter, chosen));
    assert(chosen == at) by {
        if chosen < at {
            assert(!occurs_at(text, delimiter, chosen));
        } else if at < chosen {
            assert(!occurs_at(text, delimiter, at));
        }
    }
}

/// The encoding of a text is that of its parts.
pub proof fn lemma_encode_concat(a: Seq<char>, b: Seq<char>)
    ensures
        encode_utf8(a + b) == encode_utf8(a) + encode_utf8(b),
    decreases a.len(),
{
    if a.len() == 0 {
        assert(a + b =~= b);
        assert(encode_utf8(a) + encode_utf8(b) =~= encode_utf8(b));
    } else {
        lemma_encode_concat(a.drop_first(), b);
        assert((a + b).drop_first() =~= a.drop_first() + b);
        assert(encode_utf8(a + b) =~= encode_utf8(a) + encode_utf8(b));
    }
}

/// The encoding of a beginning of a text ends at a character boundary.
proof fn lemma_prefix_is_boundary(a: Seq<char>, b: Seq<char>)
    ensures
        is_char_boundary(encode_utf8(a + b), byte_len(a) as int),
    decreases a.len(),
{
    encode_utf8_valid_utf8(a + b);
    if a.len() > 0 {
        lemma_encode_concat(a, b);
        encode_utf8_first_scalar(a + b);
        lemma_prefix_is_boundary(a.drop_first(), b);
        assert((a + b).drop_first() =~= a.drop_first() + b);
        assert(pop_first_scalar(encode_utf8(a + b)) =~= encode_utf8(a.drop_first() + b));
    } else {
        is_char_boundary_start_end_of_seq(encode_utf8(a + b));
    }
}

/// A text takes at least one byte per character.
pub proof fn lemma_byte_len(text: Seq<char>)
    ensures
        byte_len(text) >= text.len(),
    decreases text.len(),
{
    if text.len() > 0 {
        lemma_byte_len(text.drop_first());
    }
}

/// A text takes at most four bytes per character.
pub proof fn lemma_byte_len_at_most(text: Seq<char>)
    ensures
        byte_len(text) <= 4 * text.len(),
    decreases text.len(),
{
    if text.len() > 0 {
        lemma_byte_len_at_most(text.drop_first());
    }
}

/// A beginning of a text is the longest that fits where no longer one ends within the limit.
proof fn lemma_fitting(text: Seq<char>, kept: int, limit: nat)
    requires
        0 <= kept <= text.len(),
        byte_len(text.take(kept)) <= limit,
        forall|m: int| kept < m <= text.len() ==> byte_len(#[trigger] text.take(m)) > limit,
    ensures
        fitting(text, limit) == text.take(kept),
    decreases text.len(),
{
    assert(text.take(text.len() as int) =~= text);
    if kept < text.len() {
        let shorter = text.drop_last();
        assert(shorter.take(kept) =~= text.take(kept));
        assert forall|m: int| kept < m <= shorter.len() implies byte_len(#[trigger] shorter.take(m))
            > limit by {
            assert(shorter.take(m) =~= text.take(m));
        }
        lemma_fitting(shorter, kept, limit);
    }
}

/// What was cut to a limit keeps within it, is a beginning of the text, and is not cut again.
pub proof fn law_fitting(text: Seq<char>, limit: nat)
    ensures
        byte_len(fitting(text, limit)) <= limit,
        fitting(text, limit).len() <= text.len(),
        fitting(text, limit) == text.take(fitting(text, limit).len() as int),
        fitting(fitting(text, limit), limit) == fitting(text, limit),
        byte_len(text) <= limit ==> fitting(text, limit) == text,
    decreases text.len(),
{
    if text.len() > 0 && byte_len(text) > limit {
        law_fitting(text.drop_last(), limit);
        let kept = fitting(text, limit);
        assert(text.drop_last().take(kept.len() as int) =~= text.take(kept.len() as int));
    } else {
        assert(text.take(text.len() as int) =~= text);
    }
}

/// A numeral gives back the number that it was made from.
pub proof fn lemma_decimal_value(n: nat)
    ensures
        decimal_value(decimal(n)) == n,
    decreases n,
{
    reveal_with_fuel(decimal_value, 2);
    if n < 10 {
        assert(decimal(n).drop_last() =~= Seq::<char>::empty());
    } else {
        lemma_decimal_value(n / 10);
        assert(decimal(n).drop_last() =~= decimal(n / 10));
    }
}

/// Different numbers have different numerals.
pub proof fn lemma_decimal_injective(a: nat, b: nat)
    requires
        decimal(a) == decimal(b),
    ensures
        a == b,
{
    lemma_decimal_value(a);
    lemma_decimal_value(b);
}

/// Calls `str::split_once`: what stands before and after the first occurrence of `delimiter`,
/// or `None` where `text` does not hold it.
#[verifier::external_body]
fn split_once_str<'a>(text: &'a str, delimiter: &str) -> (r: Option<(&'a str, &'a str)>)
    ensures
        match r {
            Some((head, tail)) => {
                &&& first_at(text@, delimiter@, head@.len() as int)
                &&& text@ == head@ + delimiter@ + tail@
            },
            None => forall|at: int| !#[trigger] occurs_at(text@, delimiter@, at),
        },
{
    text.split_once(delimiter)
}

/// Calls `str::trim`: the text without leading and trailing Unicode white space.
#[verifier::external_body]
pub(crate) fn trim(text: &str) -> (r: &str)
    ensures
        r@ == trimmed(text@),
{
    text.trim()
}

/// Splits `text` at the first `delimiter`.
pub(crate) fn split_once<'a>(text: &'a str, delimiter: &str) -> (r: Option<(&'a str, &'a str)>)
    ensures
        match r {
            Some((head, tail)) => {
                &&& split_first(text@, delimiter@) == Some((head@, tail@))
                &&& tail@.len() + delimiter@.len() <= text@.len()
            },
            None => split_first(text@, delimiter@) is None,
        },
{
    match split_once_str(text, delimiter) {
        Some((head, tail)) => {
            proof {
                let at = head@.len() as int;
                lemma_split_first(text@, delimiter@, at);
                assert(text@.take(at) =~= head@);
                assert(text@.skip(at + delimiter@.len()) =~= tail@);
            }
            Some((head, tail))
        },
        None => None,
    }
}

/// The number of bytes that a text takes in UTF-8.
pub(crate) fn size(text: &str) -> (r: usize)
    ensures
        r == byte_len(text@),
{
    text.as_bytes().len()
}

/// The longest beginning of `text` that takes at most `limit` bytes in UTF-8.
pub(crate) fn fit(text: &str, limit: usize) -> (r: String)
    ensures
        r@ == fitting(text@, limit as nat),
{
    let ghost bytes = encode_utf8(text@);
    let whole = size(text);
    let most: usize = if whole < limit {
        whole
    } else {
        limit
    };
    let mut end: usize = most;
    proof {
        encode_utf8_valid_utf8(text@);
        is_char_boundary_start_end_of_seq(bytes);
    }
    while !text.is_char_boundary(end)
        invariant
            bytes == encode_utf8(text@),
            is_char_boundary(bytes, 0),
            end <= most,
            forall|k: int| end < k <= most ==> !is_char_boundary(bytes, k),
        decreases end,
    {
        end = end - 1;
    }
    let (front, back) = text.split_at(end);
    proof {
        decode_utf8_split(bytes, end as int);
        encode_utf8_decode_utf8(text@);
        encode_utf8_decode_utf8(front@);
        encode_utf8_decode_utf8(back@);
        let kept = front@.len() as int;
        assert(text@ =~= front@ + back@);
        assert(text@.take(kept) =~= front@);
        assert forall|m: int| kept < m <= text@.len() implies byte_len(#[trigger] text@.take(m))
            > limit by {
            let longer = text@.take(m);
            let more = longer.skip(kept);
            assert(longer =~= front@ + more);
            lemma_encode_concat(front@, more);
            lemma_byte_len(more);
            assert(text@ =~= longer + text@.skip(m));
            lemma_encode_concat(longer, text@.skip(m));
            lemma_prefix_is_boundary(longer, text@.skip(m));
        }
        lemma_fitting(text@, kept, limit as nat);
    }
    front.to_owned()
}

/// Whether two texts hold the same characters.
pub(crate) fn same_text(a: &str, b: &str) -> (r: bool)
    ensures
        r == (a@ == b@),
{
    let left = a.as_bytes();
    let right = b.as_bytes();
    proof {
        encode_utf8_decode_utf8(a@);
        encode_utf8_decode_utf8(b@);
    }
    if left.len() != right.len() {
        return false;
    }
    let mut i: usize = 0;
    while i < left.len()
        invariant
            i <= left@.len(),
            left@.len() == right@.len(),
            left@ == encode_utf8(a@),
            right@ == encode_utf8(b@),
            forall|j: int| 0 <= j < i ==> left@[j] == right@[j],
        decreases left@.len() - i,
    {
        if left[i] != right[i] {
            return false;
        }
        i = i + 1;
    }
    assert(left@ =~= right@);
    true
}

/// Whether `text` is one of `list`.
pub(crate) fn contains_text(list: &[String], text: &str) -> (r: bool)
    ensures
        r == views(list@).contains(text@),
{
    let mut i: usize = 0;
    while i < list.len()
        invariant
            i <= list@.len(),
            forall|j: int| 0 <= j < i ==> list@[j]@ != text@,
        decreases list@.len() - i,
    {
        if same_text(list[i].as_str(), text) {
            assert(views(list@)[i as int] == text@);
            return true;
        }
        i = i + 1;
    }
    assert(!views(list@).contains(text@)) by {
        assert forall|j: int| 0 <= j < list@.len() implies views(list@)[j] != text@ by {}
    }
    false
}

/// Whether `text` is one of `list`.
pub(crate) fn contains_str(list: &[&str], text: &str) -> (r: bool)
    ensures
        r == views(list@).contains(text@),
{
    let mut i: usize = 0;
    while i < list.len()
        invariant
            i <= list@.len(),
            forall|j: int| 0 <= j < i ==> list@[j]@ != text@,
        decreases list@.len() - i,
    {
        if same_text(list[i], text) {
            assert(views(list@)[i as int] == text@);
            return true;
        }
        i = i + 1;
    }
    assert(!views(list@).contains(text@)) by {
        assert forall|j: int| 0 <= j < list@.len() implies views(list@)[j] != text@ by {}
    }
    false
}

/// A copy of a list of texts.
pub(crate) fn clone_texts(list: &Vec<String>) -> (r: Vec<String>)
    ensures
        r@ == list@,
{
    let mut out: Vec<String> = Vec::new();
    let mut i: usize = 0;
    while i < list.len()
        invariant
            i <= list@.len(),
            out@ == list@.take(i as int),
        decreases list@.len() - i,
    {
        out.push(list[i].clone());
        i = i + 1;
    }
    assert(out@ =~= list@);
    out
}

/// Whether `piece` is one of the parts of `text` between its occurrences of `delimiter`.
pub(crate) fn has_piece(text: &str, delimiter: &str, piece: &str) -> (r: bool)
    requires
        delimiter@.len() > 0,
    ensures
        r == pieces(text@, delimiter@).contains(piece@),
    decreases text@.len(),
{
    match split_once(text, delimiter) {
        Some((head, tail)) => {
            let first = same_text(head, piece);
            let later = has_piece(tail, delimiter, piece);
            proof {
                let rest = pieces(tail@, delimiter@);
                let all = seq![head@] + rest;
                assert(pieces(text@, delimiter@) == all);
                if first {
                    assert(all[0] == piece@);
                }
                if later {
                    let k = choose|k: int| 0 <= k < rest.len() && rest[k] == piece@;
                    assert(all[k + 1] == piece@);
                }
                if all.contains(piece@) {
                    let k = choose|k: int| 0 <= k < all.len() && all[k] == piece@;
                    if k > 0 {
                        assert(rest[k - 1] == piece@);
                    }
                }
            }
            first || later
        },
        None => {
            let same = same_text(text, piece);
            assert(seq![text@].contains(piece@) == (text@ == piece@)) by {
                assert(seq![text@][0] == text@);
            }
            same
        },
    }
}

/// Joins `parts` with `separator`.
pub(crate) fn join(parts: &[String], separator: &str) -> (r: String)
    ensures
        r@ == joined(views(parts@), separator@),
{
    let mut out = String::new();
    let mut i: usize = 0;
    while i < parts.len()
        invariant
            i <= parts@.len(),
            out@ == joined(views(parts@).take(i as int), separator@),
        decreases parts@.len() - i,
    {
        proof {
            let next = views(parts@).take(i + 1);
            assert(next.drop_last() =~= views(parts@).take(i as int));
            assert(next.last() == parts@[i as int]@);
        }
        if i > 0 {
            out.append(separator);
        }
        out.append(parts[i].as_str());
        i = i + 1;
    }
    assert(views(parts@).take(parts@.len() as int) =~= views(parts@));
    out
}

/// `a` followed by `b`.
pub(crate) fn joined_pair(a: &str, b: &str) -> (r: String)
    ensures
        r@ == a@ + b@,
{
    let mut out = a.to_owned();
    out.append(b);
    out
}

/// The digit `d` as text.
fn digit_text(d: u64) -> (r: &'static str)
    requires
        d < 10,
    ensures
        r@ == seq![digit(d as nat)],
{
    proof {
        reveal_strlit("0");
        reveal_strlit("1");
        reveal_strlit("2");
        reveal_strlit("3");
        reveal_strlit("4");
        reveal_strlit("5");
        reveal_strlit("6");
        reveal_strlit("7");
        reveal_strlit("8");
        reveal_strlit("9");
    }
    let r = match d {
        0 => "0",
        1 => "1",
        2 => "2",
        3 => "3",
        4 => "4",
        5 => "5",
        6 => "6",
        7 => "7",
        8 => "8",
        _ => "9",
    };
    assert(r@ =~= seq![digit(d as nat)]);
    r
}

/// The decimal numeral of `n`.
pub(crate) fn decimal_text(n: u64) -> (r: String)
    ensures
        r@ == decimal(n as nat),
    decreases n,
{
    if n < 10 {
        digit_text(n).to_owned()
    } else {
        let mut out = decimal_text(n / 10);
        out.append(digit_text(n % 10));
        assert(out@ =~= decimal(n as nat));
        out
    }
}

/// The decimal numeral of `n`, signed where `n` is negative.
pub(crate) fn signed_decimal_text(n: i64) -> (r: String)
    ensures
        r@ == signed_decimal(n as int),
{
    if n >= 0 {
        decimal_text(n as u64)
    } else {
        let magnitude: u64 = (-(n + 1)) as u64 + 1;
        let mut out = "-".to_owned();
        out.append(decimal_text(magnitude).as_str());
        out
    }
}

/// Joining two lists one after the other is joining each of them and putting the separator between
/// the two; a single part is joined to itself, and no part to nothing.
pub proof fn law_joined(front: Seq<Seq<char>>, back: Seq<Seq<char>>, separator: Seq<char>)
    requires
        front.len() > 0,
        back.len() > 0,
    ensures
        joined(front + back, separator) == joined(front, separator) + separator + joined(
            back,
            separator,
        ),
        joined(seq![front[0]], separator) == front[0],
        joined(Seq::empty(), separator).len() == 0,
    decreases back.len(),
{
    let all = front + back;
    assert(all.last() == back.last());
    if back.len() == 1 {
        assert(all.drop_last() =~= front);
    } else {
        law_joined(front, back.drop_last(), separator);
        assert(all.drop_last() =~= front + back.drop_last());
        assert(joined(all, separator) =~= joined(front, separator) + separator + joined(
            back,
            separator,
        ));
    }
}

proof fn lemma_first_exists(text: Seq<char>, delimiter: Seq<char>, at: int) -> (first: int)
    requires
        occurs_at(text, delimiter, at),
    ensures
        first_at(text, delimiter, first),
        first <= at,
    decreases at,
{
    if exists|j: int| 0 <= j < at && occurs_at(text, delimiter, j) {
        let j = choose|j: int| 0 <= j < at && occurs_at(text, delimiter, j);
        lemma_first_exists(text, delimiter, j)
    } else {
        at
    }
}

/// A text that holds a delimiter is split at its first occurrence: the two parts with the delimiter
/// between them are the text, and no other such reading of the text has a shorter beginning.
pub proof fn law_split_at_the_first(
    text: Seq<char>,
    delimiter: Seq<char>,
    before: Seq<char>,
    after: Seq<char>,
)
    requires
        text == before + delimiter + after,
    ensures
        split_first(text, delimiter) is Some,
        ({
            let (head, tail) = split_first(text, delimiter)->0;
            text == head + delimiter + tail && head.len() <= before.len()
        }),
{
    let at = before.len() as int;
    assert(text.subrange(at, at + delimiter.len()) =~= delimiter);
    let first = lemma_first_exists(text, delimiter, at);
    lemma_split_first(text, delimiter, first);
    let (head, tail) = split_first(text, delimiter)->0;
    assert(text.subrange(first, first + delimiter.len()) == delimiter);
    assert(text =~= head + text.subrange(first, first + delimiter.len()) + tail);
}

proof fn lemma_split_parts(text: Seq<char>, delimiter: Seq<char>)
    requires
        split_first(text, delimiter) is Some,
    ensures
        ({
            let (head, tail) = split_first(text, delimiter)->0;
            text == head + delimiter + tail
        }),
{
    let at = choose|at: int| first_at(text, delimiter, at);
    assert(first_at(text, delimiter, at));
    let (head, tail) = split_first(text, delimiter)->0;
    assert(text =~= head + text.subrange(at, at + delimiter.len()) + tail);
}

/// The pieces of a text with the delimiter between neighbours are the text again, and no piece holds
/// the delimiter.
pub proof fn law_pieces(text: Seq<char>, delimiter: Seq<char>)
    requires
        delimiter.len() > 0,
    ensures
        pieces(text, delimiter).len() > 0,
        joined(pieces(text, delimiter), delimiter) == text,
        forall|i: int, before: Seq<char>, after: Seq<char>|
            #![trigger pieces(text, delimiter)[i], before + delimiter + after]
            0 <= i < pieces(text, delimiter).len() ==> pieces(text, delimiter)[i] != before
                + delimiter + after,
    decreases text.len(),
{
    let all = pieces(text, delimiter);
    match split_first(text, delimiter) {
        Some((head, tail)) => {
            lemma_split_parts(text, delimiter);
            assert(text.len() == head.len() + delimiter.len() + tail.len());
            law_pieces(tail, delimiter);
            let rest = pieces(tail, delimiter);
            law_joined(seq![head], rest, delimiter);
            assert forall|i: int, before: Seq<char>, after: Seq<char>|
                #![trigger all[i], before + delimiter + after]
                0 <= i < all.len() implies all[i] != before + delimiter + after by {
                if i > 0 {
                    assert(all[i] == rest[i - 1]);
                } else if head == before + delimiter + after {
                    let beyond = after + delimiter + tail;
                    assert(text =~= before + delimiter + beyond);
                    law_split_at_the_first(text, delimiter, before, beyond);
                }
            }
        },
        None => {
            assert forall|i: int, before: Seq<char>, after: Seq<char>|
                #![trigger all[i], before + delimiter + after]
                0 <= i < all.len() implies all[i] != before + delimiter + after by {
                if text == before + delimiter + after {
                    law_split_at_the_first(text, delimiter, before, after);
                }
            }
        },
    }
}

/// Splitting undoes joining: parts that do not hold the separator, a single character, are the
/// pieces of what they are joined to.
pub proof fn law_pieces_of_joined(parts: Seq<Seq<char>>, separator: Seq<char>)
    requires
        separator.len() == 1,
        parts.len() > 0,
        forall|i: int| 0 <= i < parts.len() ==> !(#[trigger] parts[i]).contains(separator[0]),
    ensures
        pieces(joined(parts, separator), separator) == parts,
    decreases parts.len(),
{
    let text = joined(parts, separator);
    let head = parts[0];
    assert(!head.contains(separator[0]));
    if parts.len() == 1 {
        assert forall|at: int| !first_at(text, separator, at) by {
            if occurs_at(text, separator, at) {
                assert(text.subrange(at, at + 1)[0] == text[at]);
                assert(head.contains(text[at]));
            }
        }
        assert(pieces(text, separator) =~= parts);
    } else {
        let rest = parts.drop_first();
        assert forall|i: int| 0 <= i < rest.len() implies !(#[trigger] rest[i]).contains(
            separator[0],
        ) by {
            assert(rest[i] == parts[i + 1]);
        }
        law_pieces_of_joined(rest, separator);
        law_joined(seq![head], rest, separator);
        assert(seq![head] + rest =~= parts);
        let tail = joined(rest, separator);
        let at = head.len() as int;
        assert(text.subrange(at, at + 1) =~= separator);
        assert forall|j: int| 0 <= j < at implies !#[trigger] occurs_at(text, separator, j) by {
            assert(text[j] == head[j]);
            if occurs_at(text, separator, j) {
                assert(text.subrange(j, j + 1)[0] == text[j]);
            }
        }
        lemma_split_first(text, separator, at);
        assert(text.take(at) =~= head);
        assert(text.skip(at + 1) =~= tail);
        assert(pieces(text, separator) =~= parts);
    }
}

/// Trimming takes away white space at both ends and nothing else: what is left stands in the text
/// from `from` up to `to`, all around it is white space, and it neither begins nor ends with any.
pub proof fn law_trimmed(text: Seq<char>) -> (ends: (int, int))
    ensures
        0 <= ends.0 <= ends.1 <= text.len(),
        trimmed(text) == text.subrange(ends.0, ends.1),
        forall|i: int|
            0 <= i < ends.0 || ends.1 <= i < text.len() ==> is_white_space(#[trigger] text[i]),
        ends.0 < ends.1 ==> !is_white_space(text[ends.0]) && !is_white_space(text[ends.1 - 1]),
    decreases text.len(),
{
    if text.len() > 0 && is_white_space(text.first()) {
        let shorter = text.drop_first();
        let (from, to) = law_trimmed(shorter);
        assert(shorter.subrange(from, to) =~= text.subrange(from + 1, to + 1));
        assert forall|i: int|
            0 <= i < from + 1 || to + 1 <= i < text.len() implies is_white_space(
            #[trigger] text[i],
        ) by {
            if i > 0 {
                assert(shorter[i - 1] == text[i]);
            }
        }
        (from + 1, to + 1)
    } else if text.len() > 0 && is_white_space(text.last()) {
        let shorter = text.drop_last();
        let (from, to) = law_trimmed(shorter);
        assert(shorter.subrange(from, to) =~= text.subrange(from, to));
        assert forall|i: int|
            0 <= i < from || to <= i < text.len() implies is_white_space(#[trigger] text[i]) by {
            if i < shorter.len() {
                assert(shorter[i] == text[i]);
            }
        }
        (from, to)
    } else {
        assert(text.subrange(0, text.len() as int) =~= text);
        (0, text.len() as int)
    }
}

/// A numeral is made of digits, has no leading zero, and gives back the number that it was made
/// from; that of a negative number is the one of its opposite behind a minus sign.
pub proof fn law_decimal(n: nat)
    ensures
        decimal(n).len() > 0,
        forall|i: int| 0 <= i < decimal(n).len() ==> '0' <= #[trigger] decimal(n)[i] <= '9',
        n > 0 ==> decimal(n)[0] != '0',
        decimal_value(decimal(n)) == n,
        signed_decimal(n as int) == decimal(n),
        n > 0 ==> signed_decimal(-(n as int)) == seq!['-'] + decimal(n),
    decreases n,
{
    lemma_decimal_value(n);
    reveal_strlit("-");
    assert("-"@ =~= seq!['-']);
    if n >= 10 {
        law_decimal(n / 10);
        let front = decimal(n / 10);
        assert forall|i: int| 0 <= i < decimal(n).len() implies '0' <= #[trigger] decimal(n)[i]
            <= '9' by {
            if i < front.len() {
                assert(decimal(n)[i] == front[i]);
            }
        }
    }
}

/// What is cut to a limit is the longest beginning that keeps within it: one more character would
/// take it beyond.
pub proof fn law_fitting_is_longest(text: Seq<char>, limit: nat)
    ensures
        ({
            let kept = fitting(text, limit).len() as int;
            kept < text.len() ==> byte_len(text.take(kept + 1)) > limit
        }),
    decreases text.len(),
{
    if text.len() > 0 && byte_len(text) > limit {
        let shorter = text.drop_last();
        law_fitting_is_longest(shorter, limit);
        law_fitting(shorter, limit);
        let kept = fitting(text, limit).len() as int;
        if kept < shorter.len() {
            assert(shorter.take(kept + 1) =~= text.take(kept + 1));
        } else {
            assert(text.take(kept + 1) =~= text);
        }
    }
}

} // verus!
