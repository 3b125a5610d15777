//! Where a contract ABI is read from: the ABI directory first, then the
//! index of ABI texts registered at run time.

use vstd::prelude::*;
use crate::config::path_join;
use crate::text::{chars_of, owned, push_str, same_text, string_from};

verus! {

/// ABI texts registered by name, each name once.
pub struct AbiIndex {
    entries: Vec<(String, String)>,
}

/// The position of a name's entry.
pub open spec fn name_index(entries: Seq<(String, String)>, name: Seq<char>) -> Option<int> {
    if exists|i: int| 0 <= i < entries.len() && entries[i].0@ == name {
        Some(choose|i: int| 0 <= i < entries.len() && entries[i].0@ == name)
    } else {
        None
    }
}

/// The text registered under a name.
pub open spec fn content_in(entries: Seq<(String, String)>, name: Seq<char>) -> Option<Seq<char>> {
    match name_index(entries, name) {
        Some(i) => Some(entries[i].1@),
        None => None,
    }
}

/// No name is registered twice.
pub open spec fn unique_names(entries: Seq<(String, String)>) -> bool {
    forall|i: int, j: int| 0 <= i < j < entries.len() ==> entries[i].0@ != entries[j].0@
}

proof fn lemma_name_index_unique(entries: Seq<(String, String)>, k: int)
    requires
        unique_names(entries),
        0 <= k < entries.len(),
    ensures
        name_index(entries, entries[k].0@) == Some(k),
{
    let n = entries[k].0@;
    assert(0 <= k < entries.len() && entries[k].0@ == n);
    let i = choose|i: int| 0 <= i < entries.len() && entries[i].0@ == n;
    if i != k {
        if i < k {
            assert(entries[i].0@ != entries[k].0@);
        } else {
            assert(entries[k].0@ != entries[i].0@);
        }
    }
}

impl AbiIndex {
    /// The text registered under a name, if any.
    pub closed spec fn content(&self, name: Seq<char>) -> Option<Seq<char>> {
        content_in(self.entries@, name)
    }

    /// Each name is registered once.
    pub closed spec fn wf(&self) -> bool {
        unique_names(self.entries@)
    }

    /// An empty index.
    pub fn new() -> (r: AbiIndex)
        ensures
            r.wf(),
            forall|n: Seq<char>| #[trigger] r.content(n) is None,
    {
        AbiIndex { entries: Vec::new() }
    }

    fn find(&self, name: &str) -> (r: Option<usize>)
        requires
            self.wf(),
        ensures
            match r {
                Some(i) => i < self.entries@.len() && self.entries@[i as int].0@ == name@ && name_index(
                    self.entries@,
                    name@,
                ) == Some(i as int),
                None => name_index(self.entries@, name@) is None,
            },
    {
        let mut i: usize = 0;
        while i < self.entries.len()
            invariant
                self.wf(),
                i <= self.entries@.len(),
                forall|j: int| 0 <= j < i ==> self.entries@[j].0@ != name@,
            decreases self.entries@.len() - i,
        {
            if same_text(self.entries[i].0.as_str(), name) {
                proof {
                    lemma_name_index_unique(self.entries@, i as int);
                }
                return Some(i);
            }
            i = i + 1;
        }
        None
    }

    /// Registers an ABI text under a name, replacing any earlier one; the
    /// other names keep their texts.
    pub fn register_abi_content(&mut self, name: &str, json_content: &str)
        requires
            old(self).wf(),
        ensures
            final(self).wf(),
            final(self).content(name@) == Some(json_content@),
            forall|n: Seq<char>| n != name@ ==> #[trigger] final(self).content(n) == old(self).content(n),
    {
        let ghost before = self.entries@;
        let entry = (owned(name), owned(json_content));
        match self.find(name) {
            Some(i) => {
                self.entries.set(i, entry);
                let ghost after = self.entries@;
                assert(unique_names(after)) by {
                    assert forall|a: int, b: int| 0 <= a < b < after.len() implies after[a].0@ != after[b].0@ by {
                        assert(before[a].0@ != before[b].0@);
                    }
                }
                proof {
                    lemma_name_index_unique(after, i as int);
                    assert forall|n: Seq<char>| n != name@ implies #[trigger] content_in(after, n) == content_in(before, n) by {
                        if exists|k: int| 0 <= k < before.len() && before[k].0@ == n {
                            let k = choose|k: int| 0 <= k < before.len() && before[k].0@ == n;
                            lemma_name_index_unique(before, k);
                            lemma_name_index_unique(after, k);
                        } else {
                            assert forall|k: int| 0 <= k < after.len() implies after[k].0@ != n by {
                                if k != i {
                                    assert(after[k] == before[k]);
                                }
                            }
                        }
                    }
                }
            },
            None => {
                self.entries.push(entry);
                let ghost after = self.entries@;
                assert(unique_names(after)) by {
                    assert forall|a: int, b: int| 0 <= a < b < after.len() implies after[a].0@ != after[b].0@ by {
                        if b < before.len() {
                            assert(before[a].0@ != before[b].0@);
                        } else {
                            assert(!(0 <= a < before.len() && before[a].0@ == name@));
                        }
                    }
                }
                proof {
                    lemma_name_index_unique(after, before.len() as int);
                    assert forall|n: Seq<char>| n != name@ implies #[trigger] content_in(after, n) == content_in(before, n) by {
                        if exists|k: int| 0 <= k < before.len() && before[k].0@ == n {
                            let k = choose|k: int| 0 <= k < before.len() && before[k].0@ == n;
                            lemma_name_index_unique(before, k);
                            lemma_name_index_unique(after, k);
                        } else {
                            assert forall|k: int| 0 <= k < after.len() implies after[k].0@ != n by {
                                if k < before.len() {
                                    assert(after[k] == before[k]);
                                }
                            }
                        }
                    }
                }
            },
        }
    }

    /// Forgets every registered text.
    pub fn clear_abi_index(&mut self)
        ensures
            final(self).wf(),
            forall|n: Seq<char>| #[trigger] final(self).content(n) is None,
    {
        self.entries = Vec::new();
    }

    /// The text registered under a name.
    pub fn get(&self, name: &str) -> (r: Option<String>)
        requires
            self.wf(),
        ensures
            match r {
                Some(c) => self.content(name@) == Some(c@),
                None => self.content(name@) is None,
            },
    {
        match self.find(name) {
            Some(i) => Some(self.entries[i].1.clone()),
            None => None,
        }
    }
}

/// The file an ABI is read from: `<abis_dir>/<name>.json`.
pub open spec fn abi_file_path_spec(abis_dir: Seq<char>, name: Seq<char>) -> Seq<char> {
    path_join(abis_dir, name + ".json"@)
}

/// The path of an ABI's file.
pub fn abi_file_path(abis_dir: &str, name: &str) -> (r: String)
    ensures
        r@ == abi_file_path_spec(abis_dir@, name@),
{
    let mut file = chars_of(name);
    push_str(&mut file, ".json");
    let f = string_from(file.as_slice());
    crate::config::join_path(abis_dir, f.as_str())
}

/// Where an ABI comes from.
#[derive(Debug)]
pub enum AbiSource {
    /// Read and parse this file.
    File(String),
    /// Parse this registered text.
    Content(String),
    /// Neither exists: this error.
    Missing(String),
}

/// The error for an ABI found nowhere.
pub open spec fn msg_abi_not_found(name: Seq<char>, abis_dir: Seq<char>) -> Seq<char> {
    "ABI '"@ + name + "' not found in "@ + abis_dir + " or content index"@
}

/// Chooses where an ABI is read from: its file when that exists
/// (`file_exists` tells whether `abi_file_path` exists), else its
/// registered text, else an error.
pub fn abi_source(abis_dir: &str, name: &str, file_exists: bool, index: &AbiIndex) -> (r: AbiSource)
    requires
        index.wf(),
    ensures
        file_exists ==> r is File && r->File_0@ == abi_file_path_spec(abis_dir@, name@),
        !file_exists ==> match index.content(name@) {
            Some(c) => r is Content && r->Content_0@ == c,
            None => r is Missing && r->Missing_0@ == msg_abi_not_found(name@, abis_dir@),
        },
{
    if file_exists {
        return AbiSource::File(abi_file_path(abis_dir, name));
    }
    match index.get(name) {
        Some(c) => AbiSource::Content(c),
        None => {
            let mut v = chars_of("ABI '");
            push_str(&mut v, name);
            push_str(&mut v, "' not found in ");
            push_str(&mut v, abis_dir);
            push_str(&mut v, " or content index");
            AbiSource::Missing(string_from(v.as_slice()))
        },
    }
}

} // verus!
