use vstd::prelude::*;
use vstd::utf8::{decode_utf8, encode_utf8, encode_utf8_decode_utf8, encode_utf8_valid_utf8, is_ascii_chars, is_ascii_chars_encode_utf8, is_char_boundary, is_char_boundary_iff_not_is_continuation_byte, is_char_boundary_start_end_of_seq, is_continuation_byte};

verus! {

/// `String::push` appends one character to the end of the string and leaves
/// the characters already there in place.
pub assume_specification[ String::push ](s: &mut String, c: char)
    ensures
        final(s)@ == old(s)@.push(c),
;

/// The lower-case form that `str::to_lowercase` gives a text.
pub uninterp spec fn lowercase_of(s: Seq<char>) -> Seq<char>;

/// `str::to_lowercase` returns the lower-case equivalent of the text, as
/// Unicode defines it. The result depends on the text alone.
pub assume_specification[ str::to_lowercase ](s: &str) -> (lowered: String)
    ensures
        lowered@ == lowercase_of(s@),
;

/// The upper-case form that `str::to_uppercase` gives a text.
pub uninterp spec fn uppercase_of(s: Seq<char>) -> Seq<char>;

/// `str::to_uppercase` returns the upper-case equivalent of the text, as
/// Unicode defines it. The result depends on the text alone.
pub assume_specification[ str::to_uppercase ](s: &str) -> (raised: String)
    ensures
        raised@ == uppercase_of(s@),
;

/// The characters of a string slice, in order.
pub fn chars_of(s: &str) -> (v: Vec<char>)
    ensures
        v@ == s@,
{
    let mut v: Vec<char> = Vec::new();
    for c in it: s.chars()
        invariant
            it.seq() == s@,
            v@ == s@.take(it.index() as int),
    {
        v.push(c);
        assert(v@ =~= s@.take(it.index() + 1));
    }
    assert(v@ =~= s@);
    v
}

/// The string that holds exactly the given characters, in order.
pub fn string_of(chars: &Vec<char>) -> (s: String)
    ensures
        s@ == chars@,
{
    let mut s = String::new();
    let mut i: usize = 0;
    while i < chars.len()
        invariant
            i <= chars.len(),
            s@ == chars@.take(i as int),
        decreases chars.len() - i,
    {
        s.push(chars[i]);
        assert(s@ =~= chars@.take(i + 1));
        i += 1;
    }
    assert(s@ =~= chars@);
    s
}

/// Whether two lists of characters hold the same characters.
pub fn same_chars(x: &Vec<char>, y: &Vec<char>) -> (same: bool)
    ensures
        same == (x@ == y@),
{
    if x.len() != y.len() {
        return false;
    }
    let mut i: usize = 0;
    while i < x.len()
        invariant
            i <= x.len(),
            x.len() == y.len(),
            forall|j: int| 0 <= j < i ==> x@[j] == y@[j],
        decreases x.len() - i,
    {
        if x[i] != y[i] {
            return false;
        }
        i += 1;
    }
    assert(x@ =~= y@);
    true
}

/// Whether two string slices hold the same characters.
pub fn same_text(a: &str, b: &str) -> (same: bool)
    ensures
        same == (a@ == b@),
{
    same_chars(&chars_of(a), &chars_of(b))
}

/// The length of the first field of `s`: the number of characters before
/// the first one that is a separator, or all of them where none is.
pub open spec fn field_end(s: Seq<char>, seps: Seq<char>) -> int
    decreases s.len(),
{
    if s.len() == 0 || seps.contains(s[0]) {
        0
    } else {
        1 + field_end(s.skip(1), seps)
    }
}

/// The fields of `s`: the stretches between separators, in order, empty
/// ones included. A text with `n` separators has `n + 1` fields.
pub open spec fn fields(s: Seq<char>, seps: Seq<char>) -> Seq<Seq<char>>
    decreases s.len(),
{
    let end = field_end(s, seps);
    if 0 <= end < s.len() {
        seq![s.take(end)] + fields(s.skip(end + 1), seps)
    } else {
        seq![s]
    }
}

/// The first field ends at `k` when no earlier character is a separator and
/// either the text ends at `k` or a separator stands there.
pub proof fn lemma_field_end(s: Seq<char>, seps: Seq<char>, k: int)
    requires
        0 <= k <= s.len(),
        forall|j: int| 0 <= j < k ==> !seps.contains(#[trigger] s[j]),
        k == s.len() || seps.contains(s[k]),
    ensures
        field_end(s, seps) == k,
    decreases k,
{
    if k > 0 {
        let rest = s.skip(1);
        assert forall|j: int| 0 <= j < k - 1 implies !seps.contains(#[trigger] rest[j]) by {
            assert(rest[j] == s[j + 1]);
        }
        lemma_field_end(rest, seps, k - 1);
    }
}

/// The texts that a list of character vectors holds.
pub open spec fn texts(v: Seq<Vec<char>>) -> Seq<Seq<char>> {
    Seq::new(v.len(), |i: int| v[i]@)
}

/// Whether a character occurs in a list of characters.
pub fn occurs_in(chars: &Vec<char>, c: char) -> (found: bool)
    ensures
        found == chars@.contains(c),
{
    let mut i: usize = 0;
    while i < chars.len()
        invariant
            i <= chars.len(),
            forall|j: int| 0 <= j < i ==> chars@[j] != c,
        decreases chars.len() - i,
    {
        if chars[i] == c {
            return true;
        }
        i += 1;
    }
    false
}

/// Cuts a text into its fields at every separator.
pub fn split_fields(chars: &Vec<char>, seps: &Vec<char>) -> (out: Vec<Vec<char>>)
    ensures
        texts(out@) == fields(chars@, seps@),
{
    let mut out: Vec<Vec<char>> = Vec::new();
    let mut current: Vec<char> = Vec::new();
    let ghost mut start: int = 0;
    let mut i: usize = 0;
    proof {
        assert(chars@.skip(0) =~= chars@);
        assert(texts(out@) + fields(chars@, seps@) =~= fields(chars@, seps@));
        assert(current@ =~= chars@.subrange(0, 0));
    }
    while i < chars.len()
        invariant
            0 <= start <= i <= chars.len(),
            current@ == chars@.subrange(start, i as int),
            forall|j: int| start <= j < i ==> !seps@.contains(#[trigger] chars@[j]),
            fields(chars@, seps@) == texts(out@) + fields(chars@.skip(start), seps@),
        decreases chars.len() - i,
    {
        let c = chars[i];
        if occurs_in(seps, c) {
            proof {
                let rest = chars@.skip(start);
                lemma_field_end(rest, seps@, i - start);
                assert(rest.take(i - start) =~= current@);
                assert(rest.skip(i - start + 1) =~= chars@.skip(i + 1));
                assert((texts(out@).push(current@)) + fields(chars@.skip(i + 1), seps@)
                    =~= texts(out@) + fields(rest, seps@));
            }
            let ghost before = texts(out@);
            out.push(current);
            assert(texts(out@) =~= before.push(current@));
            current = Vec::new();
            proof {
                start = i + 1;
            }
            assert(current@ =~= chars@.subrange(start, i + 1));
        } else {
            current.push(c);
            assert(current@ =~= chars@.subrange(start, i + 1));
        }
        i += 1;
    }
    proof {
        let rest = chars@.skip(start);
        lemma_field_end(rest, seps@, rest.len() as int);
        assert(rest =~= current@);
        assert(fields(rest, seps@) =~= seq![current@]);
    }
    let ghost before = texts(out@);
    out.push(current);
    assert(texts(out@) =~= before.push(current@));
    out
}

/// The texts of a list of strings.
pub open spec fn names(v: Seq<String>) -> Seq<Seq<char>> {
    Seq::new(v.len(), |i: int| v[i]@)
}

/// A copy of a list of strings.
pub fn clone_strings(v: &Vec<String>) -> (copy: Vec<String>)
    ensures
        copy@ == v@,
        names(copy@) == names(v@),
{
    let mut copy: Vec<String> = Vec::new();
    let mut i: usize = 0;
    while i < v.len()
        invariant
            i <= v.len(),
            copy@ == v@.take(i as int),
        decreases v.len() - i,
    {
        copy.push(v[i].clone());
        assert(copy@ =~= v@.take(i + 1));
        i += 1;
    }
    assert(copy@ =~= v@);
    copy
}

/// Whether a text occurs in a list of strings.
pub fn is_listed(list: &Vec<String>, text: &str) -> (found: bool)
    ensures
        found == names(list@).contains(text@),
{
    let mut i: usize = 0;
    while i < list.len()
        invariant
            i <= list.len(),
            forall|j: int| 0 <= j < i ==> names(list@)[j] != text@,
        decreases list.len() - i,
    {
        if same_text(list[i].as_str(), text) {
            assert(names(list@)[i as int] == text@);
            return true;
        }
        i += 1;
    }
    false
}

/// Whether a text can be cut after its first `at` bytes: it has that many
/// bytes, and no character's bytes lie on both sides of the cut.
pub open spec fn can_cut(s: Seq<char>, at: int) -> bool {
    is_char_boundary(encode_utf8(s), at)
}

/// The characters that the first `at` bytes of a text write.
pub open spec fn head_of(s: Seq<char>, at: int) -> Seq<char> {
    decode_utf8(encode_utf8(s).subrange(0, at))
}

/// A text of ASCII characters can be cut after each of its characters, and
/// what its first bytes write are its first characters.
pub proof fn lemma_ascii_cut(s: Seq<char>, at: int)
    requires
        is_ascii_chars(s),
        0 <= at <= s.len(),
    ensures
        can_cut(s, at),
        head_of(s, at) == s.take(at),
{
    let bytes = encode_utf8(s);
    is_ascii_chars_encode_utf8(s);
    encode_utf8_valid_utf8(s);
    if at == s.len() {
        is_char_boundary_start_end_of_seq(bytes);
    } else if at > 0 {
        is_char_boundary_iff_not_is_continuation_byte(bytes, at);
        let b = bytes[at];
        assert(b == s[at] as u8);
        assert(b < 128);
        assert(b & 0xC0 != 0x80) by (bit_vector)
            requires
                b < 128,
        ;
    }
    let head = s.take(at);
    assert(is_ascii_chars(head)) by {
        assert forall|i: int| 0 <= i < head.len() implies '\0' <= #[trigger] head[i] <= '\u{7f}' by {
            assert(head[i] == s[i]);
        }
    }
    is_ascii_chars_encode_utf8(head);
    assert(bytes.subrange(0, at) =~= encode_utf8(head)) by {
        assert forall|i: int| 0 <= i < at implies bytes.subrange(0, at)[i] == encode_utf8(head)[i] by {
            assert(head[i] == s[i]);
        }
    }
    encode_utf8_decode_utf8(head);
}

/// How many bytes write a text.
pub fn byte_len(s: &str) -> (n: usize)
    ensures
        n == encode_utf8(s@).len(),
{
    s.as_bytes().len()
}

/// Whether a text can be cut after its first `at` bytes.
pub fn can_cut_at(s: &str, at: usize) -> (ok: bool)
    ensures
        ok == can_cut(s@, at as int),
{
    s.is_char_boundary(at)
}

/// The part of a text that its first `at` bytes write.
pub fn cut_head(s: &str, at: usize) -> (head: &str)
    requires
        can_cut(s@, at as int),
    ensures
        head@ == head_of(s@, at as int),
{
    let (head, _) = s.split_at(at);
    proof {
        encode_utf8_decode_utf8(head@);
    }
    head
}

/// A text without the characters that are among `drop`.
pub open spec fn without_chars(s: Seq<char>, drop: Seq<char>) -> Seq<char>
    decreases s.len(),
{
    if s.len() == 0 {
        s
    } else if drop.contains(s.last()) {
        without_chars(s.drop_last(), drop)
    } else {
        without_chars(s.drop_last(), drop).push(s.last())
    }
}

/// Removes from a text every character that is among `drop`.
pub fn strip_chars(chars: &Vec<char>, drop: &Vec<char>) -> (out: Vec<char>)
    ensures
        out@ == without_chars(chars@, drop@),
{
    let mut out: Vec<char> = Vec::new();
    let mut i: usize = 0;
    assert(chars@.take(0) =~= Seq::<char>::empty());
    while i < chars.len()
        invariant
            i <= chars.len(),
            out@ == without_chars(chars@.take(i as int), drop@),
        decreases chars.len() - i,
    {
        proof {
            let next = chars@.take(i + 1);
            assert(next.drop_last() =~= chars@.take(i as int));
            assert(next.last() == chars@[i as int]);
        }
        let c = chars[i];
        if !occurs_in(drop, c) {
            out.push(c);
        }
        i += 1;
    }
    assert(chars@.take(chars@.len() as int) =~= chars@);
    out
}

/// Whether one run of bytes comes before another in dictionary order: at
/// the first place where they differ it holds the smaller byte, or it ends
/// there and the other goes on.
pub open spec fn bytes_precede(a: Seq<u8>, b: Seq<u8>) -> bool
    decreases a.len(),
{
    if b.len() == 0 {
        false
    } else if a.len() == 0 {
        true
    } else if a[0] != b[0] {
        a[0] < b[0]
    } else {
        bytes_precede(a.skip(1), b.skip(1))
    }
}

/// Whether one text comes before another as strings are ordered: by the
/// bytes that write them.
pub open spec fn precedes(a: Seq<char>, b: Seq<char>) -> bool {
    bytes_precede(encode_utf8(a), encode_utf8(b))
}

/// No run of bytes comes before itself.
pub proof fn lemma_bytes_irreflexive(a: Seq<u8>)
    ensures
        !bytes_precede(a, a),
    decreases a.len(),
{
    if a.len() > 0 {
        lemma_bytes_irreflexive(a.skip(1));
    }
}

/// Of two different runs of bytes one comes before the other.
pub proof fn lemma_bytes_total(a: Seq<u8>, b: Seq<u8>)
    requires
        a != b,
    ensures
        bytes_precede(a, b) || bytes_precede(b, a),
    decreases a.len(),
{
    if a.len() > 0 && b.len() > 0 && a[0] == b[0] {
        if a.skip(1) == b.skip(1) {
            assert(a =~= seq![a[0]] + a.skip(1));
            assert(b =~= seq![b[0]] + b.skip(1));
        }
        lemma_bytes_total(a.skip(1), b.skip(1));
    } else if a.len() == 0 && b.len() == 0 {
        assert(a =~= b);
    }
}

/// The order of runs of bytes is transitive.
pub proof fn lemma_bytes_transitive(a: Seq<u8>, b: Seq<u8>, c: Seq<u8>)
    requires
        bytes_precede(a, b),
        bytes_precede(b, c),
    ensures
        bytes_precede(a, c),
    decreases a.len(),
{
    if a.len() > 0 && a[0] == b[0] && b[0] == c[0] {
        lemma_bytes_transitive(a.skip(1), b.skip(1), c.skip(1));
    }
}

/// The order of texts is a strict total order.
pub proof fn lemma_precedes_is_total_order(a: Seq<char>, b: Seq<char>, c: Seq<char>)
    ensures
        !precedes(a, a),
        a != b ==> precedes(a, b) || precedes(b, a),
        precedes(a, b) && precedes(b, c) ==> precedes(a, c),
        precedes(a, b) ==> !precedes(b, a),
{
    lemma_bytes_irreflexive(encode_utf8(a));
    if a != b {
        encode_utf8_decode_utf8(a);
        encode_utf8_decode_utf8(b);
        lemma_bytes_total(encode_utf8(a), encode_utf8(b));
    }
    if precedes(a, b) && precedes(b, c) {
        lemma_bytes_transitive(encode_utf8(a), encode_utf8(b), encode_utf8(c));
    }
    if precedes(a, b) && precedes(b, a) {
        lemma_bytes_transitive(encode_utf8(a), encode_utf8(b), encode_utf8(a));
    }
}

/// Whether one text comes before another as strings are ordered.
pub fn text_precedes(a: &str, b: &str) -> (before: bool)
    ensures
        before == precedes(a@, b@),
{
    let x = a.as_bytes();
    let y = b.as_bytes();
    let mut i: usize = 0;
    assert(x@.skip(0) =~= x@);
    assert(y@.skip(0) =~= y@);
    while i < x.len() && i < y.len()
        invariant
            i <= x@.len(),
            i <= y@.len(),
            x@ == encode_utf8(a@),
            y@ == encode_utf8(b@),
            bytes_precede(x@, y@) == bytes_precede(x@.skip(i as int), y@.skip(i as int)),
        decreases x@.len() - i,
    {
        let ghost xs = x@.skip(i as int);
        let ghost ys = y@.skip(i as int);
        assert(xs[0] == x@[i as int]);
        assert(ys[0] == y@[i as int]);
        if x[i] != y[i] {
            return x[i] < y[i];
        }
        assert(xs.skip(1) =~= x@.skip(i + 1));
        assert(ys.skip(1) =~= y@.skip(i + 1));
        i += 1;
    }
    i < y.len()
}

/// Whether the texts of a list stand in strictly ascending order.
pub open spec fn ascending(list: Seq<Seq<char>>) -> bool {
    forall|i: int, j: int| 0 <= i < j < list.len() ==> precedes(list[i], list[j])
}

/// Puts a text into an ascending list, at its place; a text that the list
/// holds is not put in again.
pub fn insert_sorted(list: &mut Vec<String>, item: String)
    requires
        ascending(names(old(list)@)),
    ensures
        ascending(names(final(list)@)),
        forall|t: Seq<char>|
            names(final(list)@).contains(t) <==> names(old(list)@).contains(t) || t == item@,
{
    let ghost before = names(list@);
    let mut k: usize = 0;
    while k < list.len() && text_precedes(list[k].as_str(), item.as_str())
        invariant
            k <= list.len(),
            list@ == old(list)@,
            before == names(list@),
            forall|j: int| 0 <= j < k ==> precedes(#[trigger] before[j], item@),
        decreases list.len() - k,
    {
        assert(before[k as int] == list@[k as int]@);
        k += 1;
    }
    if k < list.len() && same_text(list[k].as_str(), item.as_str()) {
        assert(before[k as int] == item@);
        return ;
    }
    proof {
        assert forall|j: int| k <= j < before.len() implies precedes(item@, #[trigger] before[j]) by {
            assert(before[k as int] == list@[k as int]@);
            lemma_precedes_is_total_order(before[k as int], item@, before[j]);
            lemma_precedes_is_total_order(item@, before[k as int], before[j]);
        }
    }
    list.insert(k, item);
    proof {
        let after = names(list@);
        assert(after =~= before.take(k as int).push(item@) + before.skip(k as int));
        assert forall|i: int, j: int| 0 <= i < j < after.len() implies precedes(
            after[i],
            after[j],
        ) by {
            let a = if i < k { i } else { i - 1 };
            let b = if j < k { j } else { j - 1 };
            if i != k && j != k {
                assert(precedes(before[a], before[b]));
            }
        }
        assert forall|t: Seq<char>| after.contains(t) <==> before.contains(t) || t == item@ by {
            if after.contains(t) {
                let i = choose|i: int| 0 <= i < after.len() && after[i] == t;
                if i < k {
                    assert(before[i] == t);
                } else if i > k {
                    assert(before[i - 1] == t);
                }
            }
            if before.contains(t) {
                let i = choose|i: int| 0 <= i < before.len() && before[i] == t;
                if i < k {
                    assert(after[i] == t);
                } else {
                    assert(after[i + 1] == t);
                }
            }
            if t == item@ {
                assert(after[k as int] == t);
            }
        }
    }
}

/// Where a text first stands in a list, or the length of the list where
/// it does not stand in it.
pub open spec fn first_index(list: Seq<Seq<char>>, text: Seq<char>) -> int
    decreases list.len(),
{
    if list.len() == 0 {
        0
    } else if list[0] == text {
        0
    } else {
        1 + first_index(list.skip(1), text)
    }
}

/// `first_index` is the least place at which the text stands.
pub proof fn lemma_first_index(list: Seq<Seq<char>>, text: Seq<char>, at: int)
    requires
        0 <= at <= list.len(),
        forall|j: int| 0 <= j < at ==> list[j] != text,
        at == list.len() || list[at] == text,
    ensures
        first_index(list, text) == at,
    decreases at,
{
    if at > 0 {
        let rest = list.skip(1);
        assert forall|j: int| 0 <= j < at - 1 implies rest[j] != text by {
            assert(rest[j] == list[j + 1]);
        }
        lemma_first_index(rest, text, at - 1);
    }
}

/// `first_index` lies within the list exactly if the list holds the text,
/// and the text stands there.
pub proof fn lemma_first_index_bounds(list: Seq<Seq<char>>, text: Seq<char>)
    ensures
        0 <= first_index(list, text) <= list.len(),
        first_index(list, text) < list.len() <==> list.contains(text),
        first_index(list, text) < list.len() ==> list[first_index(list, text)] == text,
    decreases list.len(),
{
    if list.len() > 0 && list[0] != text {
        let rest = list.skip(1);
        lemma_first_index_bounds(rest, text);
        if rest.contains(text) {
            let i = choose|i: int| 0 <= i < rest.len() && rest[i] == text;
            assert(list[i + 1] == text);
        }
        if list.contains(text) {
            let i = choose|i: int| 0 <= i < list.len() && list[i] == text;
            assert(rest[i - 1] == text);
        }
    } else if list.len() > 0 {
        assert(list[0] == text);
    }
}

/// The character that writes a number below ten.
pub open spec fn digit_char(d: int) -> char {
    ('0' as int + d) as char
}

/// A number written in base ten, without leading zeros.
pub open spec fn decimal(n: nat) -> Seq<char>
    decreases n,
{
    if n < 10 {
        seq![digit_char(n as int)]
    } else {
        decimal(n / 10).push(digit_char((n % 10) as int))
    }
}

/// Writes a number in base ten.
pub fn decimal_text(n: usize) -> (text: String)
    ensures
        text@ == decimal(n as nat),
    decreases n,
{
    let digit = (48u8 + (n % 10) as u8) as char;
    if n < 10 {
        let mut text = String::new();
        text.push(digit);
        assert(text@ =~= seq![digit_char(n as int)]);
        text
    } else {
        let mut text = decimal_text(n / 10);
        text.push(digit);
        text
    }
}

/// Whether `char::is_whitespace` holds of a character: whether Unicode
/// gives it the property White_Space.
pub uninterp spec fn is_whitespace_char(c: char) -> bool;

/// `char::is_whitespace` says whether the character has the Unicode
/// property White_Space. The answer depends on the character alone.
pub assume_specification[ char::is_whitespace ](c: char) -> (white: bool)
    ensures
        white == is_whitespace_char(c),
;

/// How many characters at the start of a text are to be dropped: those
/// before the first one that is kept.
pub open spec fn leading(s: Seq<char>, dropped: spec_fn(char) -> bool) -> int
    decreases s.len(),
{
    if s.len() == 0 || !dropped(s[0]) {
        0
    } else {
        1 + leading(s.skip(1), dropped)
    }
}

/// How many characters at the end of a text are to be dropped: those
/// after the last one that is kept.
pub open spec fn trailing(s: Seq<char>, dropped: spec_fn(char) -> bool) -> int
    decreases s.len(),
{
    if s.len() == 0 || !dropped(s.last()) {
        0
    } else {
        1 + trailing(s.drop_last(), dropped)
    }
}

/// A text without the dropped characters at its start and at its end.
pub open spec fn stripped(s: Seq<char>, dropped: spec_fn(char) -> bool) -> Seq<char> {
    let from = leading(s, dropped);
    let rest = s.skip(from);
    rest.take(rest.len() - trailing(rest, dropped))
}

/// The test that holds of whitespace.
pub open spec fn whitespace() -> spec_fn(char) -> bool {
    |c: char| is_whitespace_char(c)
}

/// The test that holds of one character.
pub open spec fn only(mark: char) -> spec_fn(char) -> bool {
    |c: char| c == mark
}

/// A text without the whitespace at its start and at its end.
pub open spec fn trimmed(s: Seq<char>) -> Seq<char> {
    stripped(s, whitespace())
}

/// A text without the occurrences of one character at its start and at
/// its end.
pub open spec fn trimmed_of(s: Seq<char>, mark: char) -> Seq<char> {
    stripped(s, only(mark))
}

/// `leading` counts the dropped characters up to the first kept one.
pub proof fn lemma_leading(s: Seq<char>, dropped: spec_fn(char) -> bool, n: int)
    requires
        0 <= n <= s.len(),
        forall|j: int| 0 <= j < n ==> dropped(#[trigger] s[j]),
        n == s.len() || !dropped(s[n]),
    ensures
        leading(s, dropped) == n,
    decreases n,
{
    if n > 0 {
        let rest = s.skip(1);
        assert forall|j: int| 0 <= j < n - 1 implies dropped(#[trigger] rest[j]) by {
            assert(rest[j] == s[j + 1]);
        }
        lemma_leading(rest, dropped, n - 1);
    }
}

/// `trailing` counts the dropped characters after the last kept one.
pub proof fn lemma_trailing(s: Seq<char>, dropped: spec_fn(char) -> bool, n: int)
    requires
        0 <= n <= s.len(),
        forall|j: int| s.len() - n <= j < s.len() ==> dropped(#[trigger] s[j]),
        n == s.len() || !dropped(s[s.len() - n - 1]),
    ensures
        trailing(s, dropped) == n,
    decreases n,
{
    if n > 0 {
        let rest = s.drop_last();
        assert forall|j: int| rest.len() - (n - 1) <= j < rest.len() implies dropped(
            #[trigger] rest[j],
        ) by {
            assert(rest[j] == s[j]);
        }
        lemma_trailing(rest, dropped, n - 1);
    }
}

/// Strips a text at both ends of the characters that are marked.
fn strip_marked(chars: &Vec<char>, marks: &Vec<bool>, Ghost(dropped): Ghost<spec_fn(char) -> bool>) -> (out:
    Vec<char>)
    requires
        marks@.len() == chars@.len(),
        forall|i: int| 0 <= i < chars@.len() ==> marks@[i] == dropped(#[trigger] chars@[i]),
    ensures
        out@ == stripped(chars@, dropped),
{
    let n = chars.len();
    let mut from: usize = 0;
    while from < n && marks[from]
        invariant
            from <= n,
            n == chars@.len(),
            marks@.len() == chars@.len(),
            forall|i: int| 0 <= i < chars@.len() ==> marks@[i] == dropped(#[trigger] chars@[i]),
            forall|j: int| 0 <= j < from ==> dropped(#[trigger] chars@[j]),
        decreases n - from,
    {
        from += 1;
    }
    proof {
        lemma_leading(chars@, dropped, from as int);
    }
    let mut to: usize = n;
    while to > from && marks[to - 1]
        invariant
            from <= to <= n,
            n == chars@.len(),
            marks@.len() == chars@.len(),
            forall|i: int| 0 <= i < chars@.len() ==> marks@[i] == dropped(#[trigger] chars@[i]),
            forall|j: int| to <= j < n ==> dropped(#[trigger] chars@[j]),
        decreases to,
    {
        to -= 1;
    }
    proof {
        let rest = chars@.skip(from as int);
        assert forall|j: int| rest.len() - (n - to) <= j < rest.len() implies dropped(
            #[trigger] rest[j],
        ) by {
            assert(rest[j] == chars@[j + from]);
        }
        if to > from {
            assert(rest[rest.len() - (n - to) - 1] == chars@[to - 1]);
        }
        lemma_trailing(rest, dropped, (n - to) as int);
    }
    let mut out: Vec<char> = Vec::new();
    let mut i: usize = from;
    while i < to
        invariant
            from <= i <= to,
            to <= chars@.len(),
            out@ == chars@.subrange(from as int, i as int),
        decreases to - i,
    {
        out.push(chars[i]);
        assert(out@ =~= chars@.subrange(from as int, i + 1));
        i += 1;
    }
    assert(out@ =~= stripped(chars@, dropped));
    out
}

/// A text without the whitespace at its start and at its end.
pub fn trim(chars: &Vec<char>) -> (out: Vec<char>)
    ensures
        out@ == trimmed(chars@),
{
    let mut marks: Vec<bool> = Vec::new();
    let mut i: usize = 0;
    while i < chars.len()
        invariant
            i <= chars.len(),
            marks@.len() == i,
            forall|j: int| 0 <= j < i ==> marks@[j] == is_whitespace_char(#[trigger] chars@[j]),
        decreases chars.len() - i,
    {
        marks.push(chars[i].is_whitespace());
        i += 1;
    }
    strip_marked(chars, &marks, Ghost(whitespace()))
}

/// A text without the occurrences of one character at its start and at
/// its end.
pub fn trim_char(chars: &Vec<char>, mark: char) -> (out: Vec<char>)
    ensures
        out@ == trimmed_of(chars@, mark),
{
    let mut marks: Vec<bool> = Vec::new();
    let mut i: usize = 0;
    while i < chars.len()
        invariant
            i <= chars.len(),
            marks@.len() == i,
            forall|j: int| 0 <= j < i ==> marks@[j] == (#[trigger] chars@[j] == mark),
        decreases chars.len() - i,
    {
        marks.push(chars[i] == mark);
        i += 1;
    }
    strip_marked(chars, &marks, Ghost(only(mark)))
}

/// Whether a text starts with another.
pub open spec fn starts_with(s: Seq<char>, start: Seq<char>) -> bool {
    start.len() <= s.len() && s.take(start.len() as int) == start
}

/// Whether a text holds another at a place.
pub open spec fn holds_at(s: Seq<char>, part: Seq<char>, at: int) -> bool {
    0 <= at && at + part.len() <= s.len() && s.subrange(at, at + part.len()) == part
}

/// Whether a text holds another somewhere.
pub open spec fn has_part(s: Seq<char>, part: Seq<char>) -> bool {
    exists|at: int| holds_at(s, part, at)
}

/// Whether a text holds another at a place.
pub fn is_held_at(chars: &Vec<char>, part: &Vec<char>, at: usize) -> (held: bool)
    ensures
        held == holds_at(chars@, part@, at as int),
{
    if at > chars.len() || part.len() > chars.len() - at {
        return false;
    }
    let mut i: usize = 0;
    while i < part.len()
        invariant
            i <= part.len(),
            at + part.len() <= chars.len(),
            forall|j: int| 0 <= j < i ==> chars@[at + j] == part@[j],
        decreases part.len() - i,
    {
        if chars[at + i] != part[i] {
            assert(chars@.subrange(at as int, at + part.len())[i as int] != part@[i as int]);
            return false;
        }
        i += 1;
    }
    assert(chars@.subrange(at as int, at + part.len()) =~= part@);
    true
}

/// Whether a text starts with another.
pub fn has_start(chars: &Vec<char>, start: &Vec<char>) -> (yes: bool)
    ensures
        yes == starts_with(chars@, start@),
{
    let held = is_held_at(chars, start, 0);
    proof {
        if start@.len() <= chars@.len() {
            assert(chars@.take(start@.len() as int) =~= chars@.subrange(0, 0 + start@.len() as int));
        }
    }
    held
}

/// Whether a text holds another somewhere.
pub fn contains_part(chars: &Vec<char>, part: &Vec<char>) -> (found: bool)
    ensures
        found == has_part(chars@, part@),
{
    let mut at: usize = 0;
    while at < chars.len()
        invariant
            at <= chars.len(),
            forall|j: int| 0 <= j < at ==> !holds_at(chars@, part@, j),
        decreases chars.len() - at,
    {
        if is_held_at(chars, part, at) {
            return true;
        }
        at += 1;
    }
    is_held_at(chars, part, at)
}

/// The texts of a list that are not empty, in order.
pub open spec fn nonempty(list: Seq<Seq<char>>) -> Seq<Seq<char>>
    decreases list.len(),
{
    if list.len() == 0 {
        list
    } else if list.last().len() == 0 {
        nonempty(list.drop_last())
    } else {
        nonempty(list.drop_last()).push(list.last())
    }
}

/// A text with a blank in place of each whitespace character.
pub open spec fn blanked(s: Seq<char>) -> Seq<char> {
    Seq::new(
        s.len(),
        |i: int|
            if is_whitespace_char(s[i]) {
                ' '
            } else {
                s[i]
            },
    )
}

/// The words of a text: the stretches between whitespace that are not empty.
pub open spec fn words(s: Seq<char>) -> Seq<Seq<char>> {
    nonempty(fields(blanked(s), seq![' ']))
}

/// Drops the empty texts from a list.
pub fn drop_empty(list: Vec<Vec<char>>) -> (out: Vec<Vec<char>>)
    ensures
        texts(out@) == nonempty(texts(list@)),
{
    let mut out: Vec<Vec<char>> = Vec::new();
    let mut i: usize = 0;
    assert(texts(list@).take(0) =~= Seq::<Seq<char>>::empty());
    assert(texts(out@) =~= nonempty(texts(list@).take(0)));
    while i < list.len()
        invariant
            i <= list.len(),
            texts(out@) == nonempty(texts(list@).take(i as int)),
        decreases list.len() - i,
    {
        proof {
            let next = texts(list@).take(i + 1);
            assert(next.drop_last() =~= texts(list@).take(i as int));
            assert(next.last() == list@[i as int]@);
        }
        if list[i].len() > 0 {
            let ghost before = texts(out@);
            out.push(list[i].clone());
            assert(texts(out@) =~= before.push(list@[i as int]@));
        }
        i += 1;
    }
    assert(texts(list@).take(list@.len() as int) =~= texts(list@));
    out
}

/// Cuts a text into its words.
pub fn split_words(chars: &Vec<char>) -> (out: Vec<Vec<char>>)
    ensures
        texts(out@) == words(chars@),
{
    let mut blank: Vec<char> = Vec::new();
    let mut i: usize = 0;
    while i < chars.len()
        invariant
            i <= chars.len(),
            blank@.len() == i,
            forall|j: int| 0 <= j < i ==> blank@[j] == blanked(chars@)[j],
        decreases chars.len() - i,
    {
        let c = chars[i];
        blank.push(if c.is_whitespace() { ' ' } else { c });
        i += 1;
    }
    assert(blank@ =~= blanked(chars@));
    let seps: Vec<char> = vec![' '];
    assert(seps@ =~= seq![' ']);
    drop_empty(split_fields(&blank, &seps))
}

/// The lines of a text. A line ends at a line feed; a carriage return just
/// before the line feed belongs to the line ending. What follows the last
/// line feed is a line only if it is not empty.
pub open spec fn lines(s: Seq<char>) -> Seq<Seq<char>> {
    let cut = fields(s, seq!['\n']);
    Seq::new(
        if cut.last().len() == 0 {
            (cut.len() - 1) as nat
        } else {
            cut.len()
        },
        |i: int|
            if i + 1 < cut.len() && cut[i].len() > 0 && cut[i].last() == '\r' {
                cut[i].drop_last()
            } else {
                cut[i]
            },
    )
}

/// Cutting a text into fields gives at least one field.
pub proof fn lemma_fields_nonempty(s: Seq<char>, seps: Seq<char>)
    ensures
        fields(s, seps).len() >= 1,
    decreases s.len(),
{
    let end = field_end(s, seps);
    if 0 <= end < s.len() {
        lemma_fields_nonempty(s.skip(end + 1), seps);
    }
}

/// Cuts a text into its lines.
pub fn split_lines(chars: &Vec<char>) -> (out: Vec<Vec<char>>)
    ensures
        texts(out@) == lines(chars@),
{
    let seps: Vec<char> = vec!['\n'];
    assert(seps@ =~= seq!['\n']);
    let cut = split_fields(chars, &seps);
    proof {
        lemma_fields_nonempty(chars@, seq!['\n']);
        assert(texts(cut@).len() == cut@.len());
    }
    let n = cut.len();
    let keep: usize = if cut[n - 1].len() == 0 {
        n - 1
    } else {
        n
    };
    assert(texts(cut@).last() == cut@[n - 1]@);
    let mut out: Vec<Vec<char>> = Vec::new();
    let mut i: usize = 0;
    while i < keep
        invariant
            i <= keep <= n,
            n == cut@.len(),
            texts(cut@) == fields(chars@, seq!['\n']),
            out@.len() == i,
            forall|j: int| 0 <= j < i ==> (#[trigger] out@[j])@ == lines(chars@)[j],
            keep == lines(chars@).len(),
        decreases keep - i,
    {
        let field = &cut[i];
        assert(texts(cut@)[i as int] == field@);
        let mut line = field.clone();
        if i + 1 < n && line.len() > 0 && line[line.len() - 1] == '\r' {
            line.pop();
        }
        out.push(line);
        i += 1;
    }
    assert(texts(out@) =~= lines(chars@));
    out
}

/// The place of the first text of a list of which a test holds, or the
/// length of the list where it holds of none.
pub open spec fn first_where(list: Seq<Seq<char>>, test: spec_fn(Seq<char>) -> bool) -> int
    decreases list.len(),
{
    if list.len() == 0 || test(list[0]) {
        0
    } else {
        1 + first_where(list.skip(1), test)
    }
}

/// `first_where` is the least place at which the test holds.
pub proof fn lemma_first_where(list: Seq<Seq<char>>, test: spec_fn(Seq<char>) -> bool, at: int)
    requires
        0 <= at <= list.len(),
        forall|j: int| 0 <= j < at ==> !test(#[trigger] list[j]),
        at == list.len() || test(list[at]),
    ensures
        first_where(list, test) == at,
    decreases at,
{
    if at > 0 {
        let rest = list.skip(1);
        assert forall|j: int| 0 <= j < at - 1 implies !test(#[trigger] rest[j]) by {
            assert(rest[j] == list[j + 1]);
        }
        lemma_first_where(rest, test, at - 1);
    }
}

/// The test that holds of the texts that hold a part.
pub open spec fn holding(part: Seq<char>) -> spec_fn(Seq<char>) -> bool {
    |s: Seq<char>| has_part(s, part)
}

/// The test that holds of the texts that start with a part.
pub open spec fn starting(start: Seq<char>) -> spec_fn(Seq<char>) -> bool {
    |s: Seq<char>| starts_with(s, start)
}

/// The first text of a list that holds a part: its place, or the length
/// of the list.
pub fn find_holding(list: &Vec<Vec<char>>, part: &Vec<char>) -> (at: usize)
    ensures
        at == first_where(texts(list@), holding(part@)),
        at <= list@.len(),
        at < list@.len() ==> has_part(list@[at as int]@, part@),
{
    let mut i: usize = 0;
    while i < list.len()
        invariant
            i <= list.len(),
            forall|j: int| 0 <= j < i ==> !holding(part@)(#[trigger] texts(list@)[j]),
        decreases list.len() - i,
    {
        assert(texts(list@)[i as int] == list@[i as int]@);
        if contains_part(&list[i], part) {
            proof {
                lemma_first_where(texts(list@), holding(part@), i as int);
            }
            return i;
        }
        i += 1;
    }
    proof {
        lemma_first_where(texts(list@), holding(part@), i as int);
    }
    i
}

/// The first text of a list that starts with a part: its place, or the
/// length of the list.
pub fn find_starting(list: &Vec<Vec<char>>, start: &Vec<char>) -> (at: usize)
    ensures
        at == first_where(texts(list@), starting(start@)),
        at <= list@.len(),
        at < list@.len() ==> starts_with(list@[at as int]@, start@),
{
    let mut i: usize = 0;
    while i < list.len()
        invariant
            i <= list.len(),
            forall|j: int| 0 <= j < i ==> !starting(start@)(#[trigger] texts(list@)[j]),
        decreases list.len() - i,
    {
        assert(texts(list@)[i as int] == list@[i as int]@);
        if has_start(&list[i], start) {
            proof {
                lemma_first_where(texts(list@), starting(start@), i as int);
            }
            return i;
        }
        i += 1;
    }
    proof {
        lemma_first_where(texts(list@), starting(start@), i as int);
    }
    i
}

/// Two texts, one after the other.
pub fn join2(a: &str, b: &str) -> (text: String)
    ensures
        text@ == a@ + b@,
{
    let mut text = a.to_string();
    text.append(b);
    text
}

/// Three texts, one after another.
pub fn join3(a: &str, b: &str, c: &str) -> (text: String)
    ensures
        text@ == a@ + b@ + c@,
{
    let mut text = a.to_string();
    text.append(b);
    text.append(c);
    text
}

} // verus!
