use vstd::prelude::*;
use vstd::utf8::encode_utf8;
use crate::error::MacError;
use crate::table::{distinct, Table};
use crate::text::{ascending, byte_len, can_cut, can_cut_at, chars_of, contains_part, cut_head, first_index, has_part, head_of, insert_sorted, lemma_first_index, lemma_first_index_bounds, lines, names, same_chars, same_text, split_lines, split_words, string_of, strip_chars, texts, trim, trimmed, uppercase_of, without_chars, words};

verus! {

/// A vendor and the address prefix assigned to it.
#[derive(Debug)]
pub struct VendorInfo {
    pub prefix: String,
    pub name: String,
    pub country: String,
}

/// What a vendor record says, with its texts as sequences of characters.
pub struct VendorView {
    pub prefix: Seq<char>,
    pub name: Seq<char>,
    pub country: Seq<char>,
}

impl View for VendorInfo {
    type V = VendorView;

    open spec fn view(&self) -> VendorView {
        VendorView { prefix: self.prefix@, name: self.name@, country: self.country@ }
    }
}

impl Clone for VendorInfo {
    fn clone(&self) -> (copy: VendorInfo)
        ensures
            copy@ == self@,
    {
        VendorInfo {
            prefix: self.prefix.clone(),
            name: self.name.clone(),
            country: self.country.clone(),
        }
    }
}

/// The vendors by address prefix. Each key has one record; records stand
/// in the order in which their keys were first added.
pub struct OUIDatabase {
    vendors: Table<VendorInfo>,
}

/// The views of a list of records.
pub open spec fn records_of(v: Seq<VendorInfo>) -> Seq<VendorView> {
    Seq::new(v.len(), |i: int| v[i]@)
}

/// The views of a list of borrowed records.
pub open spec fn borrowed_records(v: Seq<&VendorInfo>) -> Seq<VendorView> {
    Seq::new(v.len(), |i: int| v[i]@)
}

/// The characters that may separate the octets of a prefix.
pub open spec fn prefix_marks() -> Seq<char> {
    seq![':', '-', '.']
}

/// A prefix as it is compared: without separators, in upper case.
pub open spec fn cleaned_prefix(mac_prefix: Seq<char>) -> Seq<char> {
    uppercase_of(without_chars(mac_prefix, prefix_marks()))
}

/// Whether a prefix can be looked up: where its cleaned form has six
/// bytes or more, it can be cut after the sixth.
pub open spec fn can_look_up(mac_prefix: Seq<char>) -> bool {
    encode_utf8(cleaned_prefix(mac_prefix)).len() >= 6 ==> can_cut(cleaned_prefix(mac_prefix), 6)
}

/// The key under which a prefix is looked up: the first six bytes of its
/// cleaned form; none where that form is shorter.
pub open spec fn lookup_key(mac_prefix: Seq<char>) -> Option<Seq<char>> {
    if encode_utf8(cleaned_prefix(mac_prefix)).len() >= 6 {
        Some(head_of(cleaned_prefix(mac_prefix), 6))
    } else {
        None
    }
}

/// The record under a key, if there is one.
pub open spec fn record_under(
    keys: Seq<Seq<char>>,
    records: Seq<VendorView>,
    key: Seq<char>,
) -> Option<VendorView> {
    if 0 <= first_index(keys, key) < records.len() {
        Some(records[first_index(keys, key)])
    } else {
        None
    }
}

/// The record that a prefix leads to, if any.
pub open spec fn vendor_of(
    keys: Seq<Seq<char>>,
    records: Seq<VendorView>,
    mac_prefix: Seq<char>,
) -> Option<VendorView> {
    match lookup_key(mac_prefix) {
        Some(key) => record_under(keys, records, key),
        None => None,
    }
}

/// The records whose country is the given one, letter case aside, in order.
pub open spec fn in_country(records: Seq<VendorView>, country: Seq<char>) -> Seq<VendorView>
    decreases records.len(),
{
    if records.len() == 0 {
        records
    } else if uppercase_of(records.last().country) == uppercase_of(country) {
        in_country(records.drop_last(), country).push(records.last())
    } else {
        in_country(records.drop_last(), country)
    }
}

/// The text that explains a prefix that cannot be looked up.
pub open spec fn uncuttable_text() -> Seq<char> {
    "Vendor prefix cannot be cut after six bytes"@
}

/// The keys and records after a record is stored under a key: in place
/// of the record that the key had, or last.
pub open spec fn with_record(
    keys: Seq<Seq<char>>,
    records: Seq<VendorView>,
    key: Seq<char>,
    record: VendorView,
) -> (Seq<Seq<char>>, Seq<VendorView>) {
    if keys.contains(key) {
        (keys, records.update(first_index(keys, key), record))
    } else {
        (keys.push(key), records.push(record))
    }
}

fn cleaned(mac_prefix: &str) -> (text: String)
    ensures
        text@ == cleaned_prefix(mac_prefix@),
{
    let chars = chars_of(mac_prefix);
    let marks: Vec<char> = vec![':', '-', '.'];
    assert(marks@ =~= prefix_marks());
    let stripped = string_of(&strip_chars(&chars, &marks));
    stripped.as_str().to_uppercase()
}

impl OUIDatabase {
    /// The keys, in the order in which they were first added.
    pub closed spec fn keys(&self) -> Seq<Seq<char>> {
        self.vendors.keys()
    }

    /// The records, each at the place of its key.
    pub closed spec fn records(&self) -> Seq<VendorView> {
        records_of(self.vendors.values())
    }

    /// A database without records.
    pub fn empty() -> (db: OUIDatabase)
        ensures
            db.keys().len() == 0,
            db.records().len() == 0,
    {
        OUIDatabase { vendors: Table::new() }
    }

    /// The database that is used while none has been fetched: two
    /// well-known vendors.
    pub fn new() -> (db: OUIDatabase)
        ensures
            db.keys() == seq!["00:17:F2"@, "00:1A:11"@],
            db.records() == seq![
                VendorView { prefix: "00:17:F2"@, name: "Apple, Inc."@, country: "US"@ },
                VendorView { prefix: "00:1A:11"@, name: "Google, Inc."@, country: "US"@ },
            ],
    {
        let mut db = OUIDatabase::empty();
        db.insert(
            "00:17:F2".to_string(),
            VendorInfo {
                prefix: "00:17:F2".to_string(),
                name: "Apple, Inc.".to_string(),
                country: "US".to_string(),
            },
        );
        proof {
            reveal_strlit("00:17:F2");
            reveal_strlit("00:1A:11");
            assert("00:17:F2"@[4] != "00:1A:11"@[4]);
            assert(db.keys() =~= seq!["00:17:F2"@]);
            assert(!db.keys().contains("00:1A:11"@));
        }
        db.insert(
            "00:1A:11".to_string(),
            VendorInfo {
                prefix: "00:1A:11".to_string(),
                name: "Google, Inc.".to_string(),
                country: "US".to_string(),
            },
        );
        proof {
            assert(db.keys() =~= seq!["00:17:F2"@, "00:1A:11"@]);
            assert(db.records() =~= seq![
                VendorView { prefix: "00:17:F2"@, name: "Apple, Inc."@, country: "US"@ },
                VendorView { prefix: "00:1A:11"@, name: "Google, Inc."@, country: "US"@ },
            ]);
        }
        db
    }

    /// Stores a record under a key, in place of the record that the key
    /// had, if it had one.
    pub fn insert(&mut self, key: String, vendor: VendorInfo)
        ensures
            (final(self).keys(), final(self).records()) == with_record(
                old(self).keys(),
                old(self).records(),
                key@,
                vendor@,
            ),
            distinct(final(self).keys()),
            final(self).keys().len() == final(self).records().len(),
    {
        let ghost before = self.vendors.values();
        self.vendors.insert(key, vendor);
        proof {
            old(self).vendors.lemma_paired();
            self.vendors.lemma_paired();
            if old(self).keys().contains(key@) {
                assert(records_of(self.vendors.values()) =~= records_of(before).update(
                    first_index(old(self).keys(), key@),
                    vendor@,
                ));
            } else {
                assert(records_of(self.vendors.values()) =~= records_of(before).push(vendor@));
            }
        }
    }

    /// The vendor that a prefix leads to. The prefix is stripped of its
    /// separators and put in upper case; its first six bytes are the key.
    /// A prefix of fewer bytes leads to no vendor.
    pub fn get_vendor(&self, mac_prefix: &str) -> (found: Option<&VendorInfo>)
        requires
            can_look_up(mac_prefix@),
        ensures
            match found {
                Some(vendor) => vendor_of(self.keys(), self.records(), mac_prefix@) == Some(
                    vendor@,
                ),
                None => vendor_of(self.keys(), self.records(), mac_prefix@) is None,
            },
    {
        let cleaned = cleaned(mac_prefix);
        if byte_len(cleaned.as_str()) >= 6 {
            let key = cut_head(cleaned.as_str(), 6);
            proof {
                self.vendors.lemma_paired();
            }
            match self.vendors.get(key) {
                Some(vendor) => {
                    assert(self.records()[first_index(self.keys(), key@)] == vendor@);
                    Some(vendor)
                },
                None => None,
            }
        } else {
            None
        }
    }

    /// The vendor that a prefix leads to, for any prefix: an error where
    /// the prefix cannot be looked up.
    pub fn find_vendor(&self, mac_prefix: &str) -> (found: Result<Option<&VendorInfo>, MacError>)
        ensures
            match found {
                Ok(Some(vendor)) => can_look_up(mac_prefix@) && vendor_of(
                    self.keys(),
                    self.records(),
                    mac_prefix@,
                ) == Some(vendor@),
                Ok(None) => can_look_up(mac_prefix@) && vendor_of(
                    self.keys(),
                    self.records(),
                    mac_prefix@,
                ) is None,
                Err(e) => !can_look_up(mac_prefix@) && (e matches MacError::InvalidFormat(m)
                    && m@ == uncuttable_text()),
            },
    {
        let cleaned = cleaned(mac_prefix);
        if byte_len(cleaned.as_str()) >= 6 && !can_cut_at(cleaned.as_str(), 6) {
            return Err(
                MacError::InvalidFormat("Vendor prefix cannot be cut after six bytes".to_string()),
            );
        }
        Ok(self.get_vendor(mac_prefix))
    }

    /// The vendors of a country, letter case aside, in the order of the
    /// database.
    pub fn vendors_by_country(&self, country: &str) -> (found: Vec<&VendorInfo>)
        ensures
            borrowed_records(found@) == in_country(self.records(), country@),
    {
        let wanted = country.to_uppercase();
        let mut found: Vec<&VendorInfo> = Vec::new();
        let n = self.vendors.len();
        let mut i: usize = 0;
        assert(self.records().take(0) =~= Seq::<VendorView>::empty());
        assert(borrowed_records(found@) =~= in_country(self.records().take(0), country@));
        while i < n
            invariant
                i <= n,
                n == self.vendors.values().len(),
                wanted@ == uppercase_of(country@),
                borrowed_records(found@) == in_country(self.records().take(i as int), country@),
            decreases n - i,
        {
            let vendor = self.vendors.value_at(i);
            proof {
                let next = self.records().take(i + 1);
                assert(next.drop_last() =~= self.records().take(i as int));
                assert(next.last() == vendor@);
            }
            let theirs = vendor.country.as_str().to_uppercase();
            if same_text(theirs.as_str(), wanted.as_str()) {
                let ghost before = borrowed_records(found@);
                found.push(vendor);
                assert(borrowed_records(found@) =~= before.push(vendor@));
            }
            i += 1;
        }
        assert(self.records().take(n as int) =~= self.records());
        found
    }

    /// The countries of the vendors, each once, in ascending order.
    pub fn list_countries(&self) -> (countries: Vec<String>)
        ensures
            ascending(names(countries@)),
            forall|t: Seq<char>|
                names(countries@).contains(t) <==> exists|i: int|
                    0 <= i < self.records().len() && (#[trigger] self.records()[i]).country == t,
    {
        let mut countries: Vec<String> = Vec::new();
        let n = self.vendors.len();
        let mut i: usize = 0;
        while i < n
            invariant
                i <= n,
                n == self.vendors.values().len(),
                ascending(names(countries@)),
                forall|t: Seq<char>|
                    names(countries@).contains(t) <==> exists|j: int|
                        0 <= j < i && (#[trigger] self.records()[j]).country == t,
            decreases n - i,
        {
            let ghost before = names(countries@);
            let country = self.vendors.value_at(i).country.clone();
            insert_sorted(&mut countries, country);
            proof {
                let after = names(countries@);
                assert(self.records()[i as int].country == country@);
                assert forall|t: Seq<char>| after.contains(t) <==> exists|j: int|
                    0 <= j < i + 1 && (#[trigger] self.records()[j]).country == t by {
                    if after.contains(t) {
                        if before.contains(t) {
                            let j = choose|j: int|
                                0 <= j < i && (#[trigger] self.records()[j]).country == t;
                            assert(0 <= j < i + 1);
                        } else {
                            assert(t == country@);
                        }
                    }
                    if exists|j: int| 0 <= j < i + 1 && (#[trigger] self.records()[j]).country == t {
                        let j = choose|j: int|
                            0 <= j < i + 1 && (#[trigger] self.records()[j]).country == t;
                        if j < i {
                            assert(before.contains(t));
                        }
                    }
                }
            }
            i += 1;
        }
        countries
    }

    /// The database that a listing of assigned prefixes gives.
    pub fn from_listing(listing: &str) -> (db: OUIDatabase)
        ensures
            (db.keys(), db.records()) == listing_records(listing@),
    {
        let all = split_lines(&chars_of(listing));
        assert(texts(all@).len() == all@.len());
        let mut db = OUIDatabase::empty();
        assert(db.keys() =~= Seq::<Seq<char>>::empty());
        assert(db.records() =~= Seq::<VendorView>::empty());
        let mut i: usize = 0;
        while i < all.len()
            invariant
                i <= all.len(),
                texts(all@) == lines(listing@),
                (db.keys(), db.records()) == listed(texts(all@), i as int),
            decreases all.len() - i,
        {
            match vendor_on_line(&all, i) {
                Some(vendor) => {
                    db.insert(vendor.prefix.clone(), vendor);
                },
                None => {},
            }
            i += 1;
        }
        db
    }

    /// Takes over the vendors of a listing of assigned prefixes, unless the
    /// listing gives none; says whether it did.
    pub fn update(&mut self, listing: &str) -> (changed: bool)
        ensures
            changed == (listing_records(listing@).0.len() > 0),
            changed ==> (final(self).keys(), final(self).records()) == listing_records(listing@),
            !changed ==> final(self).keys() == old(self).keys() && final(self).records() == old(
                self,
            ).records(),
    {
        let fresh = OUIDatabase::from_listing(listing);
        if fresh.len() > 0 {
            *self = fresh;
            true
        } else {
            false
        }
    }

    /// How many records the database holds.
    pub fn len(&self) -> (n: usize)
        ensures
            n == self.records().len(),
            n == self.keys().len(),
    {
        self.vendors.len()
    }
}

/// A text with one character in place of every occurrence of another.
pub open spec fn replaced(s: Seq<char>, from: char, to: char) -> Seq<char> {
    Seq::new(
        s.len(),
        |i: int|
            if s[i] == from {
                to
            } else {
                s[i]
            },
    )
}

/// The name that the words of a line give: the words are joined by
/// blanks, one after another, until what is joined ends in a full stop or
/// no word is left.
pub open spec fn company_name(rest: Seq<Seq<char>>, joined: Seq<char>) -> Seq<char>
    decreases rest.len(),
{
    if rest.len() == 0 {
        joined
    } else {
        let longer = if joined.len() > 0 {
            joined.push(' ') + rest[0]
        } else {
            rest[0]
        };
        if longer.len() > 0 && longer.last() == '.' {
            longer
        } else {
            company_name(rest.skip(1), longer)
        }
    }
}

/// How many lines at the start of a list hold more than whitespace.
pub open spec fn filled_lines(list: Seq<Seq<char>>) -> int
    decreases list.len(),
{
    if list.len() == 0 || trimmed(list[0]).len() == 0 {
        0
    } else {
        1 + filled_lines(list.skip(1))
    }
}

/// The last line of the address that follows a line: of the lines after
/// the first occurrence of the line, up to the first that holds nothing
/// but whitespace, the last, without surrounding whitespace. Empty where
/// no such line follows.
pub open spec fn address_end(all: Seq<Seq<char>>, line: Seq<char>) -> Seq<char> {
    let after = all.skip(first_index(all, line) + 1);
    let n = filled_lines(after);
    if n > 0 {
        trimmed(after[n - 1])
    } else {
        Seq::empty()
    }
}

/// The country that an address line names: its last word; `US` where it
/// has no word.
pub open spec fn country_code(address_line: Seq<char>) -> Seq<char> {
    let all = words(address_line);
    if all.len() > 0 {
        all.last()
    } else {
        "US"@
    }
}

/// The mark of the lines of a listing that assign a prefix.
pub open spec fn hex_mark() -> Seq<char> {
    "(hex)"@
}

/// The vendor that line `i` of a listing assigns, if it assigns one: the
/// line holds the mark and has four words or more. Its first word, with
/// colons for hyphens, is the prefix; its words from the fourth on give
/// the name; the address that follows the line gives the country.
pub open spec fn listed_vendor(all: Seq<Seq<char>>, i: int) -> Option<VendorView> {
    let line = all[i];
    let parts = words(line);
    if has_part(line, hex_mark()) && parts.len() >= 4 {
        Some(
            VendorView {
                prefix: replaced(parts[0], '-', ':'),
                name: company_name(parts.skip(3), Seq::empty()),
                country: country_code(address_end(all, line)),
            },
        )
    } else {
        None
    }
}

/// The keys and records that the first `n` lines of a listing give, each
/// vendor stored under its prefix, a later one in place of an earlier one
/// with the same prefix.
pub open spec fn listed(all: Seq<Seq<char>>, n: int) -> (Seq<Seq<char>>, Seq<VendorView>)
    decreases n,
{
    if n <= 0 {
        (Seq::empty(), Seq::empty())
    } else {
        let before = listed(all, n - 1);
        match listed_vendor(all, n - 1) {
            Some(vendor) => with_record(before.0, before.1, vendor.prefix, vendor),
            None => before,
        }
    }
}

/// The keys and records that a listing gives.
pub open spec fn listing_records(listing: Seq<char>) -> (Seq<Seq<char>>, Seq<VendorView>) {
    listed(lines(listing), lines(listing).len() as int)
}

fn replace_char(s: &Vec<char>, from: char, to: char) -> (out: Vec<char>)
    ensures
        out@ == replaced(s@, from, to),
{
    let mut out: Vec<char> = Vec::new();
    let mut i: usize = 0;
    while i < s.len()
        invariant
            i <= s.len(),
            out@.len() == i,
            forall|j: int| 0 <= j < i ==> out@[j] == replaced(s@, from, to)[j],
        decreases s.len() - i,
    {
        let c = s[i];
        out.push(if c == from { to } else { c });
        i += 1;
    }
    assert(out@ =~= replaced(s@, from, to));
    out
}

fn name_from(parts: &Vec<Vec<char>>) -> (name: Vec<char>)
    requires
        parts@.len() >= 3,
    ensures
        name@ == company_name(texts(parts@).skip(3), Seq::empty()),
{
    let mut name: Vec<char> = Vec::new();
    let mut i: usize = 3;
    while i < parts.len()
        invariant
            3 <= i <= parts.len(),
            company_name(texts(parts@).skip(3), Seq::empty()) == company_name(
                texts(parts@).skip(i as int),
                name@,
            ),
        decreases parts.len() - i,
    {
        let ghost rest = texts(parts@).skip(i as int);
        let ghost joined = name@;
        assert(rest[0] == parts@[i as int]@);
        assert(rest.skip(1) =~= texts(parts@).skip(i + 1));
        if name.len() > 0 {
            name.push(' ');
        }
        let part = &parts[i];
        let mut k: usize = 0;
        let ghost start = name@;
        while k < part.len()
            invariant
                k <= part.len(),
                name@ == start + part@.take(k as int),
            decreases part.len() - k,
        {
            name.push(part[k]);
            assert(name@ =~= start + part@.take(k + 1));
            k += 1;
        }
        assert(part@.take(part@.len() as int) =~= part@);
        assert(name@ =~= if joined.len() > 0 {
            joined.push(' ') + rest[0]
        } else {
            rest[0]
        });
        if name.len() > 0 && name[name.len() - 1] == '.' {
            return name;
        }
        i += 1;
    }
    name
}

fn find_line(all: &Vec<Vec<char>>, line: &Vec<char>) -> (at: usize)
    ensures
        at == first_index(texts(all@), line@),
        at <= all@.len(),
{
    let mut i: usize = 0;
    while i < all.len()
        invariant
            i <= all.len(),
            forall|j: int| 0 <= j < i ==> texts(all@)[j] != line@,
        decreases all.len() - i,
    {
        assert(texts(all@)[i as int] == all@[i as int]@);
        if same_chars(&all[i], line) {
            proof {
                lemma_first_index(texts(all@), line@, i as int);
            }
            return i;
        }
        i += 1;
    }
    proof {
        lemma_first_index(texts(all@), line@, i as int);
    }
    i
}

proof fn lemma_filled_lines(list: Seq<Seq<char>>, n: int)
    requires
        0 <= n <= list.len(),
        forall|j: int| 0 <= j < n ==> trimmed(#[trigger] list[j]).len() > 0,
        n == list.len() || trimmed(list[n]).len() == 0,
    ensures
        filled_lines(list) == n,
    decreases n,
{
    if n > 0 {
        let rest = list.skip(1);
        assert forall|j: int| 0 <= j < n - 1 implies trimmed(#[trigger] rest[j]).len() > 0 by {
            assert(rest[j] == list[j + 1]);
        }
        lemma_filled_lines(rest, n - 1);
    }
}

fn address_end_of(all: &Vec<Vec<char>>, line: &Vec<char>) -> (end: Vec<char>)
    requires
        texts(all@).contains(line@),
    ensures
        end@ == address_end(texts(all@), line@),
{
    let at = find_line(all, line);
    proof {
        lemma_first_index_bounds(texts(all@), line@);
        assert(texts(all@).len() == all@.len());
    }
    let mut end: Vec<char> = Vec::new();
    if at >= all.len() {
        return end;
    }
    let ghost after = texts(all@).skip(at + 1);
    let mut i: usize = at + 1;
    while i < all.len()
        invariant
            at + 1 <= i <= all.len(),
            at == first_index(texts(all@), line@),
            after == texts(all@).skip(at + 1),
            forall|j: int| 0 <= j < i - (at + 1) ==> trimmed(#[trigger] after[j]).len() > 0,
            i == at + 1 ==> end@.len() == 0,
            i > at + 1 ==> end@ == trimmed(after[i - (at + 1) - 1]),
        decreases all.len() - i,
    {
        assert(after[i - (at + 1)] == all@[i as int]@);
        let kept = trim(&all[i]);
        if kept.len() == 0 {
            proof {
                lemma_filled_lines(after, i - (at + 1));
            }
            return end;
        }
        end = kept;
        i += 1;
    }
    proof {
        lemma_filled_lines(after, i - (at + 1));
    }
    end
}

fn vendor_on_line(all: &Vec<Vec<char>>, i: usize) -> (found: Option<VendorInfo>)
    requires
        i < all@.len(),
    ensures
        match found {
            Some(vendor) => listed_vendor(texts(all@), i as int) == Some(vendor@),
            None => listed_vendor(texts(all@), i as int) is None,
        },
{
    let line = &all[i];
    assert(texts(all@)[i as int] == line@);
    let mark = chars_of("(hex)");
    if !contains_part(line, &mark) {
        return None;
    }
    let parts = split_words(line);
    assert(texts(parts@).len() == parts@.len());
    if parts.len() < 4 {
        return None;
    }
    assert(texts(parts@)[0] == parts@[0]@);
    let prefix = string_of(&replace_char(&parts[0], '-', ':'));
    let name = string_of(&name_from(&parts));
    let end = address_end_of(all, line);
    let end_words = split_words(&end);
    assert(texts(end_words@).len() == end_words@.len());
    let country = if end_words.len() > 0 {
        assert(texts(end_words@).last() == end_words@[end_words@.len() - 1]@);
        string_of(&end_words[end_words.len() - 1])
    } else {
        "US".to_string()
    };
    Some(VendorInfo { prefix, name, country })
}

} // verus!
