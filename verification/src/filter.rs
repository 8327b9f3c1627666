use vstd::prelude::*;
use crate::mac::{lemma_render_is_ascii, render, MacAddress, MacFormat};
use crate::table::distinct;
use crate::text::{can_cut, clone_strings, cut_head, head_of, is_listed, lemma_ascii_cut, names, uppercase_of};

verus! {

/// The vendor prefixes that may and may not be used. No prefix stands
/// twice in a list; prefixes are kept in upper case, in the order in which
/// they were first added.
#[derive(Debug)]
pub struct MacFilter {
    whitelist: Vec<String>,
    blacklist: Vec<String>,
}

/// How many bytes of an address text hold its vendor prefix, as in
/// `00:1A:11`.
pub open spec fn prefix_len() -> int {
    8
}

/// A list after a text is added: unchanged where it holds the text,
/// otherwise with the text at its end.
pub open spec fn with_entry(list: Seq<Seq<char>>, entry: Seq<char>) -> Seq<Seq<char>> {
    if list.contains(entry) {
        list
    } else {
        list.push(entry)
    }
}

/// A list without the later occurrences of each text.
pub open spec fn without_repeats(list: Seq<Seq<char>>) -> Seq<Seq<char>>
    decreases list.len(),
{
    if list.len() == 0 {
        list
    } else {
        with_entry(without_repeats(list.drop_last()), list.last())
    }
}

/// The verdict on a vendor prefix. While the whitelist holds anything, a
/// prefix is allowed exactly if it is on it. Otherwise, while the blacklist
/// holds anything, a prefix is allowed exactly if it is not on it.
/// Otherwise every prefix is allowed.
pub open spec fn verdict(
    whitelist: Seq<Seq<char>>,
    blacklist: Seq<Seq<char>>,
    prefix: Seq<char>,
) -> bool {
    if whitelist.len() > 0 {
        whitelist.contains(prefix)
    } else if blacklist.len() > 0 {
        !blacklist.contains(prefix)
    } else {
        true
    }
}

fn add_entry(list: &mut Vec<String>, entry: String)
    requires
        distinct(names(old(list)@)),
    ensures
        names(final(list)@) == with_entry(names(old(list)@), entry@),
        distinct(names(final(list)@)),
{
    if !is_listed(list, entry.as_str()) {
        let ghost before = names(list@);
        list.push(entry);
        assert(names(list@) =~= before.push(entry@));
    }
}

fn unique(list: Vec<String>) -> (out: Vec<String>)
    ensures
        names(out@) == without_repeats(names(list@)),
        distinct(names(out@)),
{
    let mut out: Vec<String> = Vec::new();
    let mut i: usize = 0;
    assert(names(list@).take(0) =~= Seq::<Seq<char>>::empty());
    assert(names(out@) =~= without_repeats(names(list@).take(0)));
    while i < list.len()
        invariant
            i <= list.len(),
            names(out@) == without_repeats(names(list@).take(i as int)),
            distinct(names(out@)),
        decreases list.len() - i,
    {
        proof {
            let next = names(list@).take(i + 1);
            assert(next.drop_last() =~= names(list@).take(i as int));
            assert(next.last() == list@[i as int]@);
        }
        add_entry(&mut out, list[i].clone());
        i += 1;
    }
    assert(names(list@).take(list@.len() as int) =~= names(list@));
    out
}

impl MacFilter {
    #[verifier::type_invariant]
    spec fn lists_have_no_repeats(&self) -> bool {
        distinct(names(self.whitelist@)) && distinct(names(self.blacklist@))
    }

    /// The prefixes that alone may be used, once there are any.
    pub closed spec fn allowed(&self) -> Seq<Seq<char>> {
        names(self.whitelist@)
    }

    /// The prefixes that may not be used.
    pub closed spec fn denied(&self) -> Seq<Seq<char>> {
        names(self.blacklist@)
    }

    /// A filter that allows every prefix.
    pub fn new() -> (filter: MacFilter)
        ensures
            filter.allowed().len() == 0,
            filter.denied().len() == 0,
    {
        MacFilter { whitelist: Vec::new(), blacklist: Vec::new() }
    }

    /// A filter with the given lists, each without its repeats.
    pub fn from_lists(whitelist: Vec<String>, blacklist: Vec<String>) -> (filter: MacFilter)
        ensures
            filter.allowed() == without_repeats(names(whitelist@)),
            filter.denied() == without_repeats(names(blacklist@)),
    {
        MacFilter { whitelist: unique(whitelist), blacklist: unique(blacklist) }
    }

    /// Puts a prefix, in upper case, on the whitelist.
    pub fn add_to_whitelist(&mut self, mac_prefix: &str)
        ensures
            final(self).allowed() == with_entry(old(self).allowed(), uppercase_of(mac_prefix@)),
            final(self).denied() == old(self).denied(),
            distinct(final(self).allowed()),
    {
        proof {
            use_type_invariant(&*self);
        }
        let mut list: Vec<String> = Vec::new();
        std::mem::swap(&mut self.whitelist, &mut list);
        add_entry(&mut list, mac_prefix.to_uppercase());
        self.whitelist = list;
    }

    /// Puts a prefix, in upper case, on the blacklist.
    pub fn add_to_blacklist(&mut self, mac_prefix: &str)
        ensures
            final(self).denied() == with_entry(old(self).denied(), uppercase_of(mac_prefix@)),
            final(self).allowed() == old(self).allowed(),
            distinct(final(self).denied()),
    {
        proof {
            use_type_invariant(&*self);
        }
        let mut list: Vec<String> = Vec::new();
        std::mem::swap(&mut self.blacklist, &mut list);
        add_entry(&mut list, mac_prefix.to_uppercase());
        self.blacklist = list;
    }

    /// Whether an address may be used, judged by its vendor prefix: the
    /// first eight bytes of its text, in upper case. The text must be one
    /// that can be cut there.
    pub fn is_allowed(&self, mac: &str) -> (allowed: bool)
        requires
            can_cut(mac@, prefix_len()),
        ensures
            allowed == verdict(
                self.allowed(),
                self.denied(),
                uppercase_of(head_of(mac@, prefix_len())),
            ),
    {
        let prefix = cut_head(mac, 8).to_uppercase();
        if self.whitelist.len() > 0 {
            return is_listed(&self.whitelist, prefix.as_str());
        }
        if self.blacklist.len() > 0 {
            return !is_listed(&self.blacklist, prefix.as_str());
        }
        true
    }

    /// Whether an address may be used, judged by the first three octets of
    /// the address as they are written in colon notation, in upper case.
    pub fn allows(&self, mac: &MacAddress) -> (allowed: bool)
        ensures
            allowed == verdict(
                self.allowed(),
                self.denied(),
                uppercase_of(render(mac.octets(), MacFormat::Colon).take(prefix_len())),
            ),
    {
        let text = mac.with_format(MacFormat::Colon).as_string();
        proof {
            mac.law_six_octets();
            lemma_render_is_ascii(mac.octets(), MacFormat::Colon);
            lemma_ascii_cut(text@, prefix_len());
        }
        self.is_allowed(text.as_str())
    }

    /// The whitelist, in the order in which its prefixes were added.
    pub fn whitelist(&self) -> (list: Vec<String>)
        ensures
            names(list@) == self.allowed(),
            distinct(names(list@)),
    {
        proof {
            use_type_invariant(self);
        }
        clone_strings(&self.whitelist)
    }

    /// The blacklist, in the order in which its prefixes were added.
    pub fn blacklist(&self) -> (list: Vec<String>)
        ensures
            names(list@) == self.denied(),
            distinct(names(list@)),
    {
        proof {
            use_type_invariant(self);
        }
        clone_strings(&self.blacklist)
    }
}

/// An address is allowed by an empty filter, by a whitelist exactly if its
/// prefix is listed, and otherwise by a blacklist exactly if its prefix is
/// not listed: the whitelist, once it holds anything, alone decides.
pub proof fn law_whitelist_decides(
    whitelist: Seq<Seq<char>>,
    blacklist: Seq<Seq<char>>,
    prefix: Seq<char>,
)
    ensures
        whitelist.len() == 0 && blacklist.len() == 0 ==> verdict(whitelist, blacklist, prefix),
        whitelist.len() > 0 ==> verdict(whitelist, blacklist, prefix) == whitelist.contains(prefix),
        whitelist.len() == 0 && blacklist.contains(prefix) ==> !verdict(
            whitelist,
            blacklist,
            prefix,
        ),
{
}

} // verus!
