use vstd::prelude::*;
use crate::error::MacError;
use crate::text::{chars_of, fields, occurs_in, split_fields, string_of, texts};
use rand::Rng;

verus! {

/// The way an address is written down.
#[derive(Debug, Clone, Copy, PartialEq, Eq, Structural)]
pub enum MacFormat {
    /// `xx:xx:xx:xx:xx:xx`
    Colon,
    /// `xx-xx-xx-xx-xx-xx`
    Hyphen,
    /// `xxxx.xxxx.xxxx`
    Dot,
    /// `xxxxxxxxxxxx`
    Raw,
}

/// A hardware address: six octets and the notation it is written in.
#[derive(Debug, Clone, Copy)]
pub struct MacAddress {
    bytes: [u8; 6],
    format: MacFormat,
}

/// One of the sixteen characters `0-9`, `a-f`, `A-F`.
pub open spec fn is_hex_digit(c: char) -> bool {
    ('0' <= c && c <= '9') || ('a' <= c && c <= 'f') || ('A' <= c && c <= 'F')
}

/// The number that a hexadecimal digit stands for.
pub open spec fn hex_value(c: char) -> int {
    if '0' <= c && c <= '9' {
        c as int - '0' as int
    } else if 'a' <= c && c <= 'f' {
        c as int - 'a' as int + 10
    } else {
        c as int - 'A' as int + 10
    }
}

/// The lower-case digit that writes a number below sixteen.
pub open spec fn hex_char(n: int) -> char {
    if n < 10 {
        ('0' as int + n) as char
    } else {
        ('a' as int + n - 10) as char
    }
}

/// The character that separates groups in a notation (none in `Raw`, where
/// no position holds a separator).
pub open spec fn separator(format: MacFormat) -> char {
    match format {
        MacFormat::Colon => ':',
        MacFormat::Hyphen => '-',
        MacFormat::Dot => '.',
        MacFormat::Raw => '.',
    }
}

/// How many characters an address takes in a notation.
pub open spec fn text_len(format: MacFormat) -> nat {
    match format {
        MacFormat::Colon => 17,
        MacFormat::Hyphen => 17,
        MacFormat::Dot => 14,
        MacFormat::Raw => 12,
    }
}

/// Whether position `i` of an address text holds a separator.
pub open spec fn is_separator_position(format: MacFormat, i: int) -> bool {
    match format {
        MacFormat::Colon => i % 3 == 2,
        MacFormat::Hyphen => i % 3 == 2,
        MacFormat::Dot => i % 5 == 4,
        MacFormat::Raw => false,
    }
}

/// The position at which the two digits of octet `k` start.
pub open spec fn octet_offset(format: MacFormat, k: int) -> int {
    match format {
        MacFormat::Colon => 3 * k,
        MacFormat::Hyphen => 3 * k,
        MacFormat::Dot => 5 * (k / 2) + 2 * (k % 2),
        MacFormat::Raw => 2 * k,
    }
}

/// The octet whose digits cover position `i`, where `i` holds no separator.
pub open spec fn octet_at(format: MacFormat, i: int) -> int {
    match format {
        MacFormat::Colon => i / 3,
        MacFormat::Hyphen => i / 3,
        MacFormat::Dot => 2 * (i / 5) + (i % 5) / 2,
        MacFormat::Raw => i / 2,
    }
}

/// The notation that a text commits to: the first separator family, in the
/// order colon, hyphen, dot, of which it holds a character; plain otherwise.
pub open spec fn family_of(s: Seq<char>) -> MacFormat {
    if s.contains(':') {
        MacFormat::Colon
    } else if s.contains('-') {
        MacFormat::Hyphen
    } else if s.contains('.') {
        MacFormat::Dot
    } else {
        MacFormat::Raw
    }
}

/// Whether a text is an address in the given notation: the right length,
/// the separator at every separator position, a hexadecimal digit elsewhere.
pub open spec fn has_shape(s: Seq<char>, format: MacFormat) -> bool {
    &&& s.len() == text_len(format)
    &&& forall|i: int|
        0 <= i < s.len() ==> if is_separator_position(format, i) {
            #[trigger] s[i] == separator(format)
        } else {
            is_hex_digit(s[i])
        }
}

/// The octet written by the two digits at positions `at` and `at + 1`.
pub open spec fn octet_value(s: Seq<char>, at: int) -> u8 {
    (16 * hex_value(s[at]) + hex_value(s[at + 1])) as u8
}

/// The six octets that a well-shaped text writes.
pub open spec fn parsed_octets(s: Seq<char>, format: MacFormat) -> Seq<u8> {
    Seq::new(6, |k: int| octet_value(s, octet_offset(format, k)))
}

/// What a text means as an address: its octets and notation, or nothing
/// where the text does not fully match the notation it commits to.
pub open spec fn parse_spec(s: Seq<char>) -> Option<(Seq<u8>, MacFormat)> {
    let format = family_of(s);
    if has_shape(s, format) {
        Some((parsed_octets(s, format), format))
    } else {
        None
    }
}

/// The character at position `i` of an address written in a notation.
pub open spec fn rendered_char(octets: Seq<u8>, format: MacFormat, i: int) -> char {
    if is_separator_position(format, i) {
        separator(format)
    } else {
        let k = octet_at(format, i);
        if i == octet_offset(format, k) {
            hex_char(octets[k] as int / 16)
        } else {
            hex_char(octets[k] as int % 16)
        }
    }
}

/// An address written in a notation: lower-case digits, two for each octet.
pub open spec fn render(octets: Seq<u8>, format: MacFormat) -> Seq<char> {
    Seq::new(text_len(format), |i: int| rendered_char(octets, format, i))
}

/// The text that explains every rejected address.
pub open spec fn invalid_mac_text() -> Seq<char> {
    "MAC address must be 12 hexadecimal characters"@
}

fn hex_digit_value(c: char) -> (v: Option<u8>)
    ensures
        v is Some <==> is_hex_digit(c),
        v matches Some(n) ==> n as int == hex_value(c) && n < 16,
{
    if '0' <= c && c <= '9' {
        Some((c as u32 - '0' as u32) as u8)
    } else if 'a' <= c && c <= 'f' {
        Some((c as u32 - 'a' as u32 + 10) as u8)
    } else if 'A' <= c && c <= 'F' {
        Some((c as u32 - 'A' as u32 + 10) as u8)
    } else {
        None
    }
}

fn lower_hex_char(n: u8) -> (c: char)
    requires
        n < 16,
    ensures
        c == hex_char(n as int),
        is_hex_digit(c),
        hex_value(c) == n,
{
    if n < 10 {
        (48u8 + n) as char
    } else {
        (87u8 + n) as char
    }
}

fn family(chars: &Vec<char>) -> (format: MacFormat)
    ensures
        format == family_of(chars@),
{
    if occurs_in(chars, ':') {
        MacFormat::Colon
    } else if occurs_in(chars, '-') {
        MacFormat::Hyphen
    } else if occurs_in(chars, '.') {
        MacFormat::Dot
    } else {
        MacFormat::Raw
    }
}

fn separator_here(format: MacFormat, i: usize) -> (b: bool)
    ensures
        b == is_separator_position(format, i as int),
{
    match format {
        MacFormat::Colon => i % 3 == 2,
        MacFormat::Hyphen => i % 3 == 2,
        MacFormat::Dot => i % 5 == 4,
        MacFormat::Raw => false,
    }
}

fn separator_char(format: MacFormat) -> (c: char)
    ensures
        c == separator(format),
{
    match format {
        MacFormat::Colon => ':',
        MacFormat::Hyphen => '-',
        MacFormat::Dot => '.',
        MacFormat::Raw => '.',
    }
}

fn length_in(format: MacFormat) -> (n: usize)
    ensures
        n == text_len(format),
{
    match format {
        MacFormat::Colon => 17,
        MacFormat::Hyphen => 17,
        MacFormat::Dot => 14,
        MacFormat::Raw => 12,
    }
}

fn offset_of(format: MacFormat, k: usize) -> (at: usize)
    requires
        k < 6,
    ensures
        at == octet_offset(format, k as int),
        at + 1 < text_len(format),
        !is_separator_position(format, at as int),
        !is_separator_position(format, at + 1),
{
    match format {
        MacFormat::Colon => 3 * k,
        MacFormat::Hyphen => 3 * k,
        MacFormat::Dot => 5 * (k / 2) + 2 * (k % 2),
        MacFormat::Raw => 2 * k,
    }
}

fn shaped(chars: &Vec<char>, format: MacFormat) -> (ok: bool)
    ensures
        ok == has_shape(chars@, format),
{
    if chars.len() != length_in(format) {
        return false;
    }
    let sep = separator_char(format);
    let mut i: usize = 0;
    while i < chars.len()
        invariant
            i <= chars.len(),
            sep == separator(format),
            forall|j: int|
                0 <= j < i ==> if is_separator_position(format, j) {
                    #[trigger] chars@[j] == separator(format)
                } else {
                    is_hex_digit(chars@[j])
                },
        decreases chars.len() - i,
    {
        let c = chars[i];
        if separator_here(format, i) {
            if c != sep {
                return false;
            }
        } else {
            if hex_digit_value(c).is_none() {
                return false;
            }
        }
        i += 1;
    }
    true
}

fn octet_from(chars: &Vec<char>, format: MacFormat, k: usize) -> (b: u8)
    requires
        k < 6,
        has_shape(chars@, format),
    ensures
        b == octet_value(chars@, octet_offset(format, k as int)),
{
    let at = offset_of(format, k);
    let hi = hex_digit_value(chars[at]);
    let lo = hex_digit_value(chars[at + 1]);
    match (hi, lo) {
        (Some(h), Some(l)) => h * 16 + l,
        _ => 0,
    }
}

/// A digit written by `hex_char` is a hexadecimal digit, no separator, and
/// stands for the number it was written from.
pub proof fn lemma_hex_char(n: int)
    requires
        0 <= n < 16,
    ensures
        is_hex_digit(hex_char(n)),
        hex_value(hex_char(n)) == n,
        hex_char(n) != ':',
        hex_char(n) != '-',
        hex_char(n) != '.',
{
}

proof fn lemma_rendered(octets: Seq<u8>, format: MacFormat)
    requires
        octets.len() == 6,
    ensures
        has_shape(render(octets, format), format),
        forall|i: int|
            0 <= i < text_len(format) && !is_separator_position(format, i) ==> is_hex_digit(
                #[trigger] render(octets, format)[i],
            ) && render(octets, format)[i] != ':' && render(octets, format)[i] != '-' && render(
                octets,
                format,
            )[i] != '.',
        parsed_octets(render(octets, format), format) =~= octets,
{
    let text = render(octets, format);
    assert forall|i: int| 0 <= i < text_len(format) && !is_separator_position(format, i) implies {
        &&& is_hex_digit(#[trigger] text[i])
        &&& text[i] != ':'
        &&& text[i] != '-'
        &&& text[i] != '.'
    } by {
        let k = octet_at(format, i);
        assert(0 <= k < 6);
        lemma_hex_char(octets[k] as int / 16);
        lemma_hex_char(octets[k] as int % 16);
    }
    assert forall|k: int| 0 <= k < 6 implies octet_value(text, octet_offset(format, k))
        == octets[k] by {
        let at = octet_offset(format, k);
        assert(0 <= at && at + 1 < text_len(format));
        assert(!is_separator_position(format, at));
        assert(!is_separator_position(format, at + 1));
        assert(octet_at(format, at) == k);
        assert(octet_at(format, at + 1) == k);
        assert(text[at] == hex_char(octets[k] as int / 16));
        assert(text[at + 1] == hex_char(octets[k] as int % 16));
        lemma_hex_char(octets[k] as int / 16);
        lemma_hex_char(octets[k] as int % 16);
    }
}

/// An address is written in ASCII characters alone.
pub proof fn lemma_render_is_ascii(octets: Seq<u8>, format: MacFormat)
    requires
        octets.len() == 6,
    ensures
        vstd::utf8::is_ascii_chars(render(octets, format)),
        render(octets, format).len() == text_len(format),
{
    let text = render(octets, format);
    lemma_rendered(octets, format);
    assert forall|i: int| 0 <= i < text.len() implies '\0' <= #[trigger] text[i] <= '\u{7f}' by {
        if is_separator_position(format, i) {
            assert(text[i] == separator(format));
        } else {
            assert(is_hex_digit(text[i]));
        }
    }
}

/// Writing an address in a notation and reading the text back gives the
/// same six octets and the same notation.
pub proof fn law_render_then_parse(octets: Seq<u8>, format: MacFormat)
    requires
        octets.len() == 6,
    ensures
        parse_spec(render(octets, format)) == Some((octets, format)),
{
    let text = render(octets, format);
    lemma_rendered(octets, format);
    assert forall|i: int| 0 <= i < text.len() && is_separator_position(format, i) implies text[i]
        == separator(format) by {}
    match format {
        MacFormat::Colon => {
            assert(text[2] == ':');
        },
        MacFormat::Hyphen => {
            assert(text[2] == '-');
            assert forall|i: int| 0 <= i < text.len() implies text[i] != ':' by {}
        },
        MacFormat::Dot => {
            assert(text[4] == '.');
            assert forall|i: int| 0 <= i < text.len() implies text[i] != ':' && text[i]
                != '-' by {}
        },
        MacFormat::Raw => {
            assert forall|i: int| 0 <= i < text.len() implies text[i] != ':' && text[i] != '-'
                && text[i] != '.' by {}
        },
    }
    assert(family_of(text) == format);
}

/// Every text that is read as an address round-trips: writing what was
/// read and reading it again gives the same six octets and notation.
pub proof fn law_parse_round_trip(s: Seq<char>)
    requires
        parse_spec(s) is Some,
    ensures
        parse_spec(s) matches Some(read) && parse_spec(render(read.0, read.1)) == Some(read),
{
    let read = parse_spec(s).unwrap();
    law_render_then_parse(read.0, read.1);
}

/// A character with a capital hexadecimal digit put in lower case.
pub open spec fn lower_digit(c: char) -> char {
    if 'A' <= c && c <= 'F' {
        (c as int - 'A' as int + 'a' as int) as char
    } else {
        c
    }
}

/// Writing what was read gives the text that was read, but for the case of
/// its digits: the written text has the same characters with every capital
/// digit in lower case.
pub proof fn law_format_restores_text(s: Seq<char>)
    requires
        parse_spec(s) is Some,
    ensures
        parse_spec(s) matches Some(read) && render(read.0, read.1) == Seq::new(
            s.len(),
            |i: int| lower_digit(s[i]),
        ),
{
    let read = parse_spec(s).unwrap();
    let format = read.1;
    let octets = read.0;
    let written = render(octets, format);
    assert(has_shape(s, format));
    assert forall|i: int| 0 <= i < s.len() implies written[i] == lower_digit(s[i]) by {
        if is_separator_position(format, i) {
            assert(s[i] == separator(format));
        } else {
            let k = octet_at(format, i);
            let at = octet_offset(format, k);
            assert(0 <= k < 6);
            assert(i == at || i == at + 1);
            assert(!is_separator_position(format, at));
            assert(!is_separator_position(format, at + 1));
            assert(is_hex_digit(s[at]));
            assert(is_hex_digit(s[at + 1]));
            let high = hex_value(s[at]);
            let low = hex_value(s[at + 1]);
            assert(octets[k] == octet_value(s, at));
            assert(octets[k] as int == 16 * high + low);
            assert((16 * high + low) / 16 == high && (16 * high + low) % 16 == low);
        }
    }
    assert(written =~= Seq::new(s.len(), |i: int| lower_digit(s[i])));
}

/// A text whose length is that of no notation is rejected: an address takes
/// twelve, fourteen or seventeen characters.
pub proof fn law_rejects_other_lengths(s: Seq<char>)
    requires
        s.len() != 12,
        s.len() != 14,
        s.len() != 17,
    ensures
        parse_spec(s) is None,
{
}

/// A text that holds a character which is neither a hexadecimal digit nor
/// one of the three separators is rejected.
pub proof fn law_rejects_foreign_character(s: Seq<char>, i: int)
    requires
        0 <= i < s.len(),
        !is_hex_digit(s[i]),
        s[i] != ':',
        s[i] != '-',
        s[i] != '.',
    ensures
        parse_spec(s) is None,
{
    let format = family_of(s);
    if has_shape(s, format) {
        assert(s[i] == separator(format) || is_hex_digit(s[i]));
    }
}

/// A text that holds two different separators is rejected.
pub proof fn law_rejects_mixed_separators(s: Seq<char>, i: int, j: int)
    requires
        0 <= i < s.len(),
        0 <= j < s.len(),
        s[i] == ':' || s[i] == '-' || s[i] == '.',
        s[j] == ':' || s[j] == '-' || s[j] == '.',
        s[i] != s[j],
    ensures
        parse_spec(s) is None,
{
    let format = family_of(s);
    if has_shape(s, format) {
        assert(s[i] == separator(format) || is_hex_digit(s[i]));
        assert(s[j] == separator(format) || is_hex_digit(s[j]));
    }
}

impl PartialEq for MacAddress {
    /// Two addresses are equal if their octets are, whatever their notation.
    fn eq(&self, other: &MacAddress) -> (same: bool) {
        let same = self.bytes[0] == other.bytes[0] && self.bytes[1] == other.bytes[1]
            && self.bytes[2] == other.bytes[2] && self.bytes[3] == other.bytes[3] && self.bytes[4]
            == other.bytes[4] && self.bytes[5] == other.bytes[5];
        proof {
            if same {
                assert(self.bytes@ =~= other.bytes@);
            }
        }
        same
    }
}

impl vstd::std_specs::cmp::PartialEqSpecImpl for MacAddress {
    open spec fn obeys_eq_spec() -> bool {
        true
    }

    open spec fn eq_spec(&self, other: &MacAddress) -> bool {
        self.octets() == other.octets()
    }
}

impl MacAddress {
    /// The six octets of the address.
    pub closed spec fn octets(&self) -> Seq<u8> {
        self.bytes@
    }

    /// The notation the address is written in.
    pub closed spec fn notation(&self) -> MacFormat {
        self.format
    }

    /// An address always has six octets.
    pub proof fn law_six_octets(&self)
        ensures
            self.octets().len() == 6,
    {
    }

    pub fn new(bytes: [u8; 6], format: MacFormat) -> (mac: MacAddress)
        ensures
            mac.octets() == bytes@,
            mac.notation() == format,
    {
        MacAddress { bytes, format }
    }

    /// The same octets in another notation.
    pub fn with_format(&self, format: MacFormat) -> (mac: MacAddress)
        ensures
            mac.octets() == self.octets(),
            mac.notation() == format,
    {
        MacAddress { bytes: self.bytes, format }
    }

    /// Reads an address in one of the four notations. A text that holds a
    /// colon must be six colon-separated pairs; otherwise one that holds a
    /// hyphen must be six hyphen-separated pairs; otherwise one that holds a
    /// dot must be three dot-separated groups of four; otherwise it must be
    /// twelve digits. Every other text is rejected.
    pub fn parse(mac_str: &str) -> (parsed: Result<MacAddress, MacError>)
        ensures
            match parsed {
                Ok(mac) => parse_spec(mac_str@) == Some((mac.octets(), mac.notation())),
                Err(e) => parse_spec(mac_str@) is None && (e matches MacError::InvalidFormat(m)
                    && m@ == invalid_mac_text()),
            },
    {
        let chars = chars_of(mac_str);
        let format = family(&chars);
        if !shaped(&chars, format) {
            return Err(
                MacError::InvalidFormat("MAC address must be 12 hexadecimal characters".to_string()),
            );
        }
        let bytes = [
            octet_from(&chars, format, 0),
            octet_from(&chars, format, 1),
            octet_from(&chars, format, 2),
            octet_from(&chars, format, 3),
            octet_from(&chars, format, 4),
            octet_from(&chars, format, 5),
        ];
        assert(bytes@ =~= parsed_octets(chars@, format));
        Ok(MacAddress { bytes, format })
    }

    /// The address written in its notation.
    pub fn as_string(&self) -> (text: String)
        ensures
            text@ == render(self.octets(), self.notation()),
    {
        let n = length_in(self.format);
        let sep = separator_char(self.format);
        let mut text = String::new();
        let mut i: usize = 0;
        while i < n
            invariant
                i <= n,
                n == text_len(self.format),
                sep == separator(self.format),
                text@ == render(self.octets(), self.notation()).take(i as int),
            decreases n - i,
        {
            let c = if separator_here(self.format, i) {
                sep
            } else {
                let k = match self.format {
                    MacFormat::Colon => i / 3,
                    MacFormat::Hyphen => i / 3,
                    MacFormat::Dot => 2 * (i / 5) + (i % 5) / 2,
                    MacFormat::Raw => i / 2,
                };
                let b = self.bytes[k];
                if i == offset_of(self.format, k) {
                    lower_hex_char(b / 16)
                } else {
                    lower_hex_char(b % 16)
                }
            };
            text.push(c);
            assert(text@ =~= render(self.octets(), self.notation()).take(i + 1));
            i += 1;
        }
        assert(text@ =~= render(self.octets(), self.notation()));
        text
    }

    pub fn get_bytes(&self) -> (bytes: &[u8; 6])
        ensures
            bytes@ == self.octets(),
    {
        &self.bytes
    }
}

/// The number written by a run of hexadecimal digits, most significant first.
pub open spec fn hex_number(digits: Seq<char>) -> nat
    decreases digits.len(),
{
    if digits.len() == 0 {
        0
    } else {
        (16 * hex_number(digits.drop_last()) + hex_value(digits.last())) as nat
    }
}

/// A text without the one plus sign that may lead it.
pub open spec fn after_plus(s: Seq<char>) -> Seq<char> {
    if s.len() > 0 && s[0] == '+' {
        s.skip(1)
    } else {
        s
    }
}

/// The octet that a text writes in base sixteen: an optional plus sign, then
/// one or more hexadecimal digits whose number is at most 255.
pub open spec fn hex_byte_of(s: Seq<char>) -> Option<u8> {
    let digits = after_plus(s);
    if digits.len() > 0 && (forall|i: int| 0 <= i < digits.len() ==> is_hex_digit(digits[i]))
        && hex_number(digits) <= 255 {
        Some(hex_number(digits) as u8)
    } else {
        None
    }
}

/// What `u8::from_str_radix` says, as text, of a text that is no octet in
/// base sixteen.
pub uninterp spec fn hex_byte_fault(s: Seq<char>) -> Seq<char>;

/// `u8::from_str_radix` with radix 16. It reads an optional plus sign
/// followed by hexadecimal digits and fails on an empty text, on any other
/// character and on a number above 255; the failure is handed on as the
/// text that the error displays.
#[verifier::external_body]
fn hex_byte(piece: &str) -> (read: Result<u8, String>)
    ensures
        match read {
            Ok(octet) => hex_byte_of(piece@) == Some(octet),
            Err(fault) => hex_byte_of(piece@) is None && fault@ == hex_byte_fault(piece@),
        },
{
    match u8::from_str_radix(piece, 16) {
        Ok(octet) => Ok(octet),
        Err(fault) => Err(fault.to_string()),
    }
}

/// The thread-local generator of the `rand` crate.
#[verifier::external_type_specification]
#[verifier::external_body]
pub struct ExThreadRng(rand::rngs::ThreadRng);

/// `rand::thread_rng` hands out the generator of the calling thread.
/// Nothing is claimed of it.
pub assume_specification[ rand::thread_rng ]() -> (rng: rand::rngs::ThreadRng)
;

/// `Rng::gen::<u8>` draws one octet from the generator. Nothing is claimed
/// of the octet.
#[verifier::external_body]
fn draw_octet(rng: &mut rand::rngs::ThreadRng) -> (octet: u8) {
    rng.gen::<u8>()
}

/// The separators between the octets of a vendor prefix.
pub open spec fn prefix_separators() -> Seq<char> {
    seq![':', '-']
}

/// The fields of a vendor prefix that are looked at: the first three.
pub open spec fn leading_pieces(s: Seq<char>) -> Seq<Seq<char>> {
    let all = fields(s, prefix_separators());
    if all.len() > 3 {
        all.take(3)
    } else {
        all
    }
}

/// The first of the given pieces that writes no octet, if there is one.
pub open spec fn first_unreadable(pieces: Seq<Seq<char>>) -> Option<int> {
    if pieces.len() > 0 && hex_byte_of(pieces[0]) is None {
        Some(0)
    } else if pieces.len() > 1 && hex_byte_of(pieces[1]) is None {
        Some(1)
    } else if pieces.len() > 2 && hex_byte_of(pieces[2]) is None {
        Some(2)
    } else {
        None
    }
}

/// The text that explains a vendor prefix of fewer than three octets.
pub open spec fn short_prefix_text() -> Seq<char> {
    "Vendor prefix must be 3 bytes"@
}

/// How a vendor prefix is read. The text is cut at colons and hyphens and
/// its first three fields are read in order. The first field that writes
/// no octet gives a parse error with the reason; fewer than three fields,
/// all readable, give `VendorNotFound`; otherwise the three octets result.
pub open spec fn reads_vendor_prefix(s: Seq<char>, outcome: Result<Seq<u8>, MacError>) -> bool {
    let pieces = leading_pieces(s);
    match outcome {
        Ok(octets) => {
            &&& first_unreadable(pieces) is None
            &&& pieces.len() == 3
            &&& octets.len() == 3
            &&& forall|k: int| 0 <= k < 3 ==> hex_byte_of(pieces[k]) == Some(#[trigger] octets[k])
        },
        Err(MacError::ParseError(m)) => {
            &&& first_unreadable(pieces) matches Some(k)
            &&& m@ == hex_byte_fault(pieces[k])
        },
        Err(MacError::VendorNotFound(m)) => {
            &&& first_unreadable(pieces) is None
            &&& pieces.len() < 3
            &&& m@ == short_prefix_text()
        },
        Err(_) => false,
    }
}

/// Reads the three octets of a vendor prefix such as `00:1A:11`.
pub fn parse_vendor_prefix(prefix: &str) -> (read: Result<[u8; 3], MacError>)
    ensures
        reads_vendor_prefix(
            prefix@,
            match read {
                Ok(octets) => Ok(octets@),
                Err(e) => Err(e),
            },
        ),
{
    let chars = chars_of(prefix);
    let seps: Vec<char> = vec![':', '-'];
    assert(seps@ =~= prefix_separators());
    let pieces = split_fields(&chars, &seps);
    let ghost leading = leading_pieces(prefix@);
    assert(texts(pieces@).len() == pieces@.len());
    assert(leading.len() == if pieces@.len() > 3 { 3 } else { pieces@.len() as int });
    assert forall|j: int| 0 <= j < leading.len() implies leading[j] == pieces@[j]@ by {
        assert(texts(pieces@)[j] == pieces@[j]@);
    }
    let mut octets: [u8; 3] = [0, 0, 0];
    let mut k: usize = 0;
    while k < 3 && k < pieces.len()
        invariant
            k <= 3,
            k <= pieces.len(),
            leading == leading_pieces(prefix@),
            leading.len() == if pieces@.len() > 3 { 3 } else { pieces@.len() as int },
            forall|j: int| 0 <= j < leading.len() ==> leading[j] == pieces@[j]@,
            forall|j: int| 0 <= j < k ==> #[trigger] hex_byte_of(leading[j]) == Some(octets@[j]),
        decreases 3 - k,
    {
        let piece = string_of(&pieces[k]);
        match hex_byte(piece.as_str()) {
            Ok(octet) => {
                octets[k] = octet;
            },
            Err(fault) => {
                assert(hex_byte_of(leading[k as int]) is None);
                assert(forall|j: int| 0 <= j < k ==> hex_byte_of(leading[j]) is Some);
                assert(first_unreadable(leading) == Some(k as int));
                return Err(MacError::ParseError(fault));
            },
        }
        k += 1;
    }
    assert(forall|j: int| 0 <= j < k ==> hex_byte_of(leading[j]) is Some);
    assert(first_unreadable(leading) is None);
    if k < 3 {
        return Err(MacError::VendorNotFound("Vendor prefix must be 3 bytes".to_string()));
    }
    Ok(octets)
}

/// The octets of a fresh address. With a vendor prefix the first three are
/// the prefix and the last three are drawn; without one all six are drawn,
/// and in the first the locally-administered bit is set and the multicast
/// bit cleared.
pub open spec fn random_octets(prefix: Option<Seq<u8>>, drawn: Seq<u8>) -> Seq<u8> {
    match prefix {
        Some(p) => seq![p[0], p[1], p[2], drawn[3], drawn[4], drawn[5]],
        None => seq![
            (drawn[0] & 0xFE) | 0x02,
            drawn[1],
            drawn[2],
            drawn[3],
            drawn[4],
            drawn[5],
        ],
    }
}

/// Builds the address that six drawn octets and an optional vendor prefix
/// give, in colon notation.
pub fn random_mac_from(prefix: Option<[u8; 3]>, drawn: [u8; 6]) -> (mac: MacAddress)
    ensures
        mac.octets() == random_octets(
            match prefix {
                Some(p) => Some(p@),
                None => None,
            },
            drawn@,
        ),
        mac.notation() == MacFormat::Colon,
{
    let bytes = match prefix {
        Some(p) => [p[0], p[1], p[2], drawn[3], drawn[4], drawn[5]],
        None => [(drawn[0] & 0xFE) | 0x02, drawn[1], drawn[2], drawn[3], drawn[4], drawn[5]],
    };
    let mac = MacAddress::new(bytes, MacFormat::Colon);
    assert(mac.octets() =~= random_octets(
        match prefix {
            Some(p) => Some(p@),
            None => None,
        },
        drawn@,
    ));
    mac
}

/// An address drawn without a vendor prefix is locally administered and
/// unicast, whatever was drawn: the two low bits of its first octet are `10`.
pub proof fn law_random_is_local_unicast(drawn: Seq<u8>)
    requires
        drawn.len() == 6,
    ensures
        random_octets(None, drawn)[0] & 0x03 == 0x02,
{
    let b = drawn[0];
    assert(((b & 0xFE) | 0x02) & 0x03 == 0x02) by (bit_vector);
}

/// An address drawn under a vendor prefix starts with the prefix, whatever
/// was drawn, and ends with the last three drawn octets.
pub proof fn law_random_keeps_prefix(prefix: Seq<u8>, drawn: Seq<u8>)
    requires
        prefix.len() == 3,
        drawn.len() == 6,
    ensures
        random_octets(Some(prefix), drawn).take(3) == prefix,
        random_octets(Some(prefix), drawn).skip(3) == drawn.skip(3),
{
    assert(random_octets(Some(prefix), drawn).take(3) =~= prefix);
    assert(random_octets(Some(prefix), drawn).skip(3) =~= drawn.skip(3));
}

/// What `generate_random_mac` may return for a request.
pub open spec fn is_random_mac_for(
    vendor_prefix: Option<Seq<char>>,
    made: Result<MacAddress, MacError>,
) -> bool {
    match vendor_prefix {
        None => made matches Ok(mac) && mac.notation() == MacFormat::Colon && mac.octets().len()
            == 6 && mac.octets()[0] & 0x03 == 0x02,
        Some(text) => match made {
            Ok(mac) => mac.notation() == MacFormat::Colon && mac.octets().len() == 6
                && reads_vendor_prefix(text, Ok(mac.octets().take(3))),
            Err(e) => reads_vendor_prefix(text, Err(e)),
        },
    }
}

/// A fresh address in colon notation. Without a vendor prefix it is a
/// locally administered unicast address; with one, its first three octets
/// are the prefix. A prefix that cannot be read is an error.
pub fn generate_random_mac(vendor_prefix: Option<&str>) -> (made: Result<MacAddress, MacError>)
    ensures
        is_random_mac_for(
            match vendor_prefix {
                Some(text) => Some(text@),
                None => None,
            },
            made,
        ),
{
    let mut rng = rand::thread_rng();
    let mut drawn: [u8; 6] = [0, 0, 0, 0, 0, 0];
    let prefix = match vendor_prefix {
        Some(text) => {
            match parse_vendor_prefix(text) {
                Ok(octets) => Some(octets),
                Err(e) => {
                    return Err(e);
                },
            }
        },
        None => {
            drawn[0] = draw_octet(&mut rng);
            drawn[1] = draw_octet(&mut rng);
            drawn[2] = draw_octet(&mut rng);
            None
        },
    };
    drawn[3] = draw_octet(&mut rng);
    drawn[4] = draw_octet(&mut rng);
    drawn[5] = draw_octet(&mut rng);
    let mac = random_mac_from(prefix, drawn);
    proof {
        match prefix {
            Some(p) => {
                law_random_keeps_prefix(p@, drawn@);
            },
            None => {
                law_random_is_local_unicast(drawn@);
            },
        }
    }
    Ok(mac)
}

} // verus!
