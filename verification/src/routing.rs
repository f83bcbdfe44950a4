//! The bucket-to-endpoint routing table.
//!
//! The table is built once at startup from an ordered list of entries and is
//! immutable afterwards.  Later entries overwrite earlier ones for duplicate
//! bucket names (last-write-wins).  A lookup miss is a valid, expected case:
//! the pipeline then falls back to a default endpoint template.

use vstd::prelude::*;

use crate::strutil::str_eq;

verus! {

/// One backend descriptor: the storage endpoint backing a bucket.
#[derive(Clone, Debug)]
pub struct CosMapItem {
    /// Backend endpoint hostname or hostname suffix.
    pub host: String,
    /// Backend port.
    pub port: u16,
    /// Backend account / service-instance identifier.
    pub instance: String,
    /// Opaque reference used to fetch a secret; `None` means no credential
    /// injection is possible for this bucket.
    pub api_key: Option<String>,
}

/// The mathematical value of a backend descriptor.
pub struct CosMapItemV {
    pub host: Seq<char>,
    pub port: u16,
    pub instance: Seq<char>,
    pub api_key: Option<Seq<char>>,
}

impl View for CosMapItem {
    type V = CosMapItemV;

    open spec fn view(&self) -> CosMapItemV {
        CosMapItemV {
            host: self.host@,
            port: self.port,
            instance: self.instance@,
            api_key: match self.api_key {
                Some(k) => Some(k@),
                None => None,
            },
        }
    }
}

impl CosMapItem {
    /// Copy a descriptor field by field.
    pub fn duplicate(&self) -> (c: CosMapItem)
        ensures
            c@ == self@,
    {
        CosMapItem {
            host: self.host.clone(),
            port: self.port,
            instance: self.instance.clone(),
            api_key: match &self.api_key {
                Some(k) => Some(k.clone()),
                None => None,
            },
        }
    }
}

/// Last-write-wins lookup over an ordered entry list: the value of the last
/// entry whose bucket name equals `k`, if any.
pub open spec fn table_lookup(s: Seq<(String, CosMapItem)>, k: Seq<char>) -> Option<CosMapItemV>
    decreases s.len(),
{
    if s.len() == 0 {
        None
    } else if s.last().0@ == k {
        Some(s.last().1@)
    } else {
        table_lookup(s.drop_last(), k)
    }
}

proof fn lemma_table_lookup_found(s: Seq<(String, CosMapItem)>, i: int, k: Seq<char>)
    requires
        0 <= i < s.len(),
        s[i].0@ == k,
        forall|j: int| i < j < s.len() ==> s[j].0@ != k,
    ensures
        table_lookup(s, k) == Some(s[i].1@),
    decreases s.len(),
{
    if i == s.len() - 1 {
    } else {
        assert(s.drop_last() =~= s.subrange(0, s.len() - 1));
        lemma_table_lookup_found(s.drop_last(), i, k);
    }
}

proof fn lemma_table_lookup_absent(s: Seq<(String, CosMapItem)>, k: Seq<char>)
    requires
        forall|j: int| 0 <= j < s.len() ==> s[j].0@ != k,
    ensures
        table_lookup(s, k) is None,
    decreases s.len(),
{
    if s.len() > 0 {
        lemma_table_lookup_absent(s.drop_last(), k);
    }
}

/// Appending an entry makes it the authoritative one for its bucket and
/// leaves every other bucket's lookup unchanged.
proof fn lemma_table_lookup_push(s: Seq<(String, CosMapItem)>, e: (String, CosMapItem), k: Seq<char>)
    ensures
        table_lookup(s.push(e), k) == (if e.0@ == k {
            Some(e.1@)
        } else {
            table_lookup(s, k)
        }),
{
    assert(s.push(e).drop_last() =~= s);
    assert(s.push(e).last() == e);
}

/// The routing table: bucket name to backend descriptor, last-write-wins.
pub struct CosMap {
    entries: Vec<(String, CosMapItem)>,
}

impl CosMap {
    /// The descriptor the table holds for bucket `k`, if any.
    pub closed spec fn lookup_spec(self, k: Seq<char>) -> Option<CosMapItemV> {
        table_lookup(self.entries@, k)
    }

    /// Look the bucket up.  Returns the descriptor of the last entry added
    /// under that name, or `None` on a miss.
    pub fn resolve(&self, bucket: &str) -> (r: Option<&CosMapItem>)
        ensures
            match r {
                Some(item) => self.lookup_spec(bucket@) == Some(item@),
                None => self.lookup_spec(bucket@) is None,
            },
    {
        let n: usize = self.entries.len();
        let mut i: usize = n;
        while i > 0
            invariant
                i <= n,
                n == self.entries@.len(),
                forall|j: int| i <= j < n ==> self.entries@[j].0@ != bucket@,
            decreases i,
        {
            i = i - 1;
            let pair = &self.entries[i];
            if str_eq(pair.0.as_str(), bucket) {
                proof {
                    lemma_table_lookup_found(self.entries@, i as int, bucket@);
                }
                return Some(&self.entries[i].1);
            }
        }
        proof {
            lemma_table_lookup_absent(self.entries@, bucket@);
        }
        None
    }

    /// Does the table hold an entry for the bucket?
    pub fn contains(&self, bucket: &str) -> (r: bool)
        ensures
            r == (self.lookup_spec(bucket@) is Some),
    {
        match self.resolve(bucket) {
            Some(_) => true,
            None => false,
        }
    }
}

/// Build the routing table from the ordered entry list a configuration
/// source supplies.  Later entries overwrite earlier ones for duplicate
/// bucket names.
pub fn build_cos_map(entries: &Vec<(String, CosMapItem)>) -> (m: CosMap)
    ensures
        forall|k: Seq<char>| m.lookup_spec(k) == table_lookup(entries@, k),
{
    let mut m = CosMap { entries: Vec::new() };
    let mut idx: usize = 0;
    proof {
        assert(entries@.subrange(0, 0) =~= Seq::<(String, CosMapItem)>::empty());
        assert forall|k: Seq<char>|
            table_lookup(m.entries@, k) == table_lookup(entries@.subrange(0, 0), k) by {
            lemma_table_lookup_absent(m.entries@, k);
            lemma_table_lookup_absent(entries@.subrange(0, 0), k);
        }
    }
    while idx < entries.len()
        invariant
            idx <= entries@.len(),
            forall|k: Seq<char>|
                table_lookup(m.entries@, k) == table_lookup(
                    entries@.subrange(0, idx as int),
                    k,
                ),
        decreases entries@.len() - idx,
    {
        let pair = &entries[idx];
        let ghost pre = m.entries@;
        let new_key = pair.0.clone();
        let new_item = pair.1.duplicate();
        let ghost new_pair = (new_key, new_item);
        m.entries.push((new_key, new_item));
        proof {
            assert(m.entries@ =~= pre.push(new_pair));
            assert(entries@.subrange(0, idx + 1) =~= entries@.subrange(0, idx as int).push(
                entries@[idx as int],
            ));
            assert forall|k: Seq<char>|
                table_lookup(m.entries@, k) == table_lookup(
                    entries@.subrange(0, idx + 1),
                    k,
                ) by {
                lemma_table_lookup_push(pre, new_pair, k);
                lemma_table_lookup_push(
                    entries@.subrange(0, idx as int),
                    entries@[idx as int],
                    k,
                );
            }
        }
        idx = idx + 1;
    }
    proof {
        assert(entries@.subrange(0, entries@.len() as int) =~= entries@);
    }
    m
}

} // verus!
