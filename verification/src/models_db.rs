//! The "known models" spec database: what each CPU model is supposed to be.
//!
//! Keys are stored as given (the bundled data uses lowercase model names);
//! a lookup trims and lowercases the model string it is asked about.

use vstd::prelude::*;
use crate::text::{
    all_ascii, ascii_lower_char, ascii_lowercase, is_ws, str_lowercase, to_lowercase, trim_seq,
    trimmed,
};

verus! {

#[derive(Debug)]
pub struct KnownCpu {
    pub expected_cores: u32,
    pub expected_threads: u32,
    pub cache_mb: u32,
    pub family: String,
}

/// `KnownCpu` with its family taken by its characters.
pub struct KnownCpuView {
    pub expected_cores: u32,
    pub expected_threads: u32,
    pub cache_mb: u32,
    pub family: Seq<char>,
}

impl View for KnownCpu {
    type V = KnownCpuView;

    open spec fn view(&self) -> KnownCpuView {
        KnownCpuView {
            expected_cores: self.expected_cores,
            expected_threads: self.expected_threads,
            cache_mb: self.cache_mb,
            family: self.family@,
        }
    }
}

/// CPU models by name; no name occurs twice.
#[derive(Debug)]
pub struct KnownModels {
    cpus: Vec<(String, KnownCpu)>,
}

pub open spec fn has_key(entries: Seq<(String, KnownCpu)>, key: Seq<char>) -> bool {
    exists|i: int| 0 <= i < entries.len() && #[trigger] entries[i].0@ == key
}

pub open spec fn index_of_key(entries: Seq<(String, KnownCpu)>, key: Seq<char>) -> int {
    choose|i: int| 0 <= i < entries.len() && #[trigger] entries[i].0@ == key
}

pub open spec fn distinct_keys(entries: Seq<(String, KnownCpu)>) -> bool {
    forall|i: int, j: int|
        0 <= i < entries.len() && 0 <= j < entries.len() && i != j ==> #[trigger] entries[i].0@
            != #[trigger] entries[j].0@
}

pub open spec fn key_seq(entries: Seq<(String, KnownCpu)>) -> Seq<Seq<char>> {
    entries.map_values(|e: (String, KnownCpu)| e.0@)
}

/// The key a model string is looked up under.
pub open spec fn lookup_key(model: Seq<char>) -> Seq<char> {
    str_lowercase(trim_seq(model))
}

/// The key of an ASCII model string: trimmed, ASCII letters lowercased.
pub open spec fn ascii_lookup_key(model: Seq<char>) -> Seq<char> {
    ascii_lowercase(trim_seq(model))
}

/// Two strings that differ at most in the case of ASCII letters.
pub open spec fn same_but_ascii_case(a: Seq<char>, b: Seq<char>) -> bool {
    &&& a.len() == b.len()
    &&& forall|i: int| 0 <= i < a.len() ==> ascii_lower_char(#[trigger] a[i]) == ascii_lower_char(b[i])
}

proof fn lemma_same_case_whitespace(x: char, y: char)
    requires
        ascii_lower_char(x) == ascii_lower_char(y),
    ensures
        is_ws(x) == is_ws(y),
{
}

proof fn lemma_trim_same_but_case(a: Seq<char>, b: Seq<char>)
    requires
        same_but_ascii_case(a, b),
    ensures
        same_but_ascii_case(trim_seq(a), trim_seq(b)),
    decreases a.len(),
{
    if a.len() > 0 {
        lemma_same_case_whitespace(a[0], b[0]);
        lemma_same_case_whitespace(a.last(), b.last());
        if is_ws(a[0]) {
            let (a1, b1) = (a.drop_first(), b.drop_first());
            assert forall|i: int| 0 <= i < a1.len() implies ascii_lower_char(#[trigger] a1[i])
                == ascii_lower_char(b1[i]) by {
                assert(a1[i] == a[i + 1] && b1[i] == b[i + 1]);
            }
            lemma_trim_same_but_case(a1, b1);
        } else if is_ws(a.last()) {
            let (a1, b1) = (a.drop_last(), b.drop_last());
            assert forall|i: int| 0 <= i < a1.len() implies ascii_lower_char(#[trigger] a1[i])
                == ascii_lower_char(b1[i]) by {
                assert(a1[i] == a[i] && b1[i] == b[i]);
            }
            lemma_trim_same_but_case(a1, b1);
        }
    }
}

/// The lookup of an ASCII model string ignores the case of its letters:
/// two model strings that differ only in ASCII case have the same key.
pub proof fn lemma_lookup_ignores_ascii_case(a: Seq<char>, b: Seq<char>)
    requires
        same_but_ascii_case(a, b),
    ensures
        ascii_lookup_key(a) == ascii_lookup_key(b),
{
    lemma_trim_same_but_case(a, b);
    let (ta, tb) = (trim_seq(a), trim_seq(b));
    assert(ascii_lowercase(ta) =~= ascii_lowercase(tb)) by {
        assert forall|i: int| 0 <= i < ta.len() implies ascii_lowercase(ta)[i] == ascii_lowercase(
            tb,
        )[i] by {
            assert(ascii_lower_char(ta[i]) == ascii_lower_char(tb[i]));
        }
    }
}

impl KnownModels {
    #[verifier::type_invariant]
    spec fn inv(self) -> bool {
        distinct_keys(self.cpus@)
    }
}

impl View for KnownModels {
    type V = Map<Seq<char>, KnownCpuView>;

    closed spec fn view(&self) -> Map<Seq<char>, KnownCpuView> {
        Map::new(
            |k: Seq<char>| has_key(self.cpus@, k),
            |k: Seq<char>| self.cpus@[index_of_key(self.cpus@, k)].1@,
        )
    }
}

impl KnownModels {
    /// An empty database.
    pub fn new() -> (db: Self)
        ensures
            db@ == Map::<Seq<char>, KnownCpuView>::empty(),
    {
        let db = KnownModels { cpus: Vec::new() };
        assert(db@ =~= Map::<Seq<char>, KnownCpuView>::empty());
        db
    }

    fn position(&self, key: &String) -> (r: Option<usize>)
        ensures
            match r {
                Some(i) => i < self.cpus@.len() && self.cpus@[i as int].0@ == key@,
                None => !has_key(self.cpus@, key@),
            },
    {
        let mut i: usize = 0;
        while i < self.cpus.len()
            invariant
                i <= self.cpus@.len(),
                forall|j: int| 0 <= j < i ==> #[trigger] self.cpus@[j].0@ != key@,
            decreases self.cpus@.len() - i,
        {
            if self.cpus[i].0 == *key {
                return Some(i);
            }
            i = i + 1;
        }
        None
    }

    /// Records `cpu` under the name `model`, replacing what was there.
    pub fn insert(&mut self, model: String, cpu: KnownCpu)
        ensures
            final(self)@ == old(self)@.insert(model@, cpu@),
    {
        proof {
            use_type_invariant(&*self);
        }
        let ghost k = model@;
        let ghost cv = cpu@;
        let ghost old_entries = self.cpus@;
        let ghost mut placed: int = 0;
        match self.position(&model) {
            Some(i) => {
                let mut cpus = Vec::new();
                std::mem::swap(&mut cpus, &mut self.cpus);
                cpus.set(i, (model, cpu));
                proof {
                    assert forall|a: int, b: int|
                        0 <= a < cpus@.len() && 0 <= b < cpus@.len() && a != b implies #[trigger] cpus@[a].0@
                        != #[trigger] cpus@[b].0@ by {
                        if a != i && b != i {
                            assert(old_entries[a] == cpus@[a]);
                            assert(old_entries[b] == cpus@[b]);
                        } else if a == i {
                            assert(old_entries[b] == cpus@[b]);
                        } else {
                            assert(old_entries[a] == cpus@[a]);
                        }
                    }
                }
                self.cpus = cpus;
                proof {
                    placed = i as int;
                }
            },
            None => {
                let mut cpus = Vec::new();
                std::mem::swap(&mut cpus, &mut self.cpus);
                cpus.push((model, cpu));
                proof {
                    assert forall|a: int, b: int|
                        0 <= a < cpus@.len() && 0 <= b < cpus@.len() && a != b implies #[trigger] cpus@[a].0@
                        != #[trigger] cpus@[b].0@ by {
                        if a < old_entries.len() && b < old_entries.len() {
                            assert(old_entries[a] == cpus@[a]);
                            assert(old_entries[b] == cpus@[b]);
                        } else if a < old_entries.len() {
                            assert(old_entries[a] == cpus@[a]);
                        } else {
                            assert(old_entries[b] == cpus@[b]);
                        }
                    }
                }
                self.cpus = cpus;
                proof {
                    placed = old_entries.len() as int;
                }
            },
        }
        proof {
            let new_entries = self.cpus@;
            assert(0 <= placed < new_entries.len());
            assert(new_entries[placed].0@ == k && new_entries[placed].1@ == cv);
            assert(new_entries.len() == old_entries.len() || (new_entries.len() == old_entries.len()
                + 1 && placed == old_entries.len()));
            assert(placed < old_entries.len() ==> old_entries[placed].0@ == k);
            assert(forall|w: int|
                0 <= w < old_entries.len() && w != placed ==> new_entries[w] == old_entries[w]);
            assert forall|key: Seq<char>| #[trigger]
                has_key(new_entries, key) == (key == k || has_key(old_entries, key)) by {
                if key == k {
                    assert(new_entries[placed].0@ == k);
                } else if has_key(old_entries, key) {
                    let w = choose|j: int| 0 <= j < old_entries.len() && old_entries[j].0@ == key;
                    assert(w != placed);
                    assert(new_entries[w] == old_entries[w]);
                } else if has_key(new_entries, key) {
                    let w = choose|j: int| 0 <= j < new_entries.len() && new_entries[j].0@ == key;
                    assert(w != placed);
                    assert(new_entries[w] == old_entries[w]);
                }
            }
            assert forall|key: Seq<char>| has_key(new_entries, key) implies new_entries[index_of_key(
                new_entries,
                key,
            )].1@ == (if key == k {
                cv
            } else {
                old_entries[index_of_key(old_entries, key)].1@
            }) by {
                let a = index_of_key(new_entries, key);
                if key == k {
                    assert(new_entries[placed].0@ == k);
                    assert(a == placed);
                } else {
                    assert(has_key(old_entries, key));
                    let b = index_of_key(old_entries, key);
                    assert(b != placed);
                    assert(new_entries[b] == old_entries[b]);
                    assert(new_entries[b].0@ == key);
                    assert(a == b);
                }
            }
            assert(self@ =~= old(self)@.insert(k, cv));
        }
    }

    /// Case-insensitive lookup by CPU model string: the model is trimmed and
    /// lowercased, then looked up.
    pub fn cpu(&self, model: &str) -> (r: Option<&KnownCpu>)
        ensures
            match r {
                Some(c) => self@.contains_key(lookup_key(model@)) && self@[lookup_key(model@)]
                    == c@,
                None => !self@.contains_key(lookup_key(model@)),
            },
            all_ascii(trim_seq(model@)) ==> lookup_key(model@) == ascii_lookup_key(model@),
    {
        proof {
            use_type_invariant(self);
        }
        let t = trimmed(model);
        let key = to_lowercase(t.as_str());
        match self.position(&key) {
            Some(i) => {
                proof {
                    let j = index_of_key(self.cpus@, key@);
                    assert(self.cpus@[i as int].0@ == key@);
                    assert(j == i);
                }
                Some(&self.cpus[i].1)
            },
            None => None,
        }
    }

    /// Number of CPU models in the database.
    pub fn cpu_count(&self) -> (n: usize)
        ensures
            n == self@.len(),
    {
        proof {
            use_type_invariant(self);
            let keys = key_seq(self.cpus@);
            assert(self@.dom() =~= keys.to_set()) by {
                assert forall|k: Seq<char>| self@.dom().contains(k) implies keys.contains(k) by {
                    let w = choose|j: int| 0 <= j < self.cpus@.len() && self.cpus@[j].0@ == k;
                    assert(keys[w] == k);
                }
                assert forall|k: Seq<char>| keys.contains(k) implies self@.dom().contains(k) by {
                    let w = choose|j: int| 0 <= j < keys.len() && keys[j] == k;
                    assert(self.cpus@[w].0@ == k);
                }
            }
            assert(keys.no_duplicates()) by {
                assert forall|a: int, b: int|
                    0 <= a < keys.len() && 0 <= b < keys.len() && a != b implies keys[a]
                    != keys[b] by {
                    assert(self.cpus@[a].0@ != self.cpus@[b].0@);
                }
            }
            keys.unique_seq_to_set();
        }
        self.cpus.len()
    }
}


/// The bundled spec sheet: common laptop CPUs of the market the tool is
/// for, by lowercase model name.
pub open spec fn bundled_cpus() -> Map<Seq<char>, KnownCpuView> {
    Map::<Seq<char>, KnownCpuView>::empty()
        .insert(
            "intel core ultra 5 125h"@,
            KnownCpuView { expected_cores: 14, expected_threads: 18, cache_mb: 18, family: "Meteor Lake"@ },
        )
        .insert(
            "intel core ultra 7 155h"@,
            KnownCpuView { expected_cores: 16, expected_threads: 22, cache_mb: 24, family: "Meteor Lake"@ },
        )
        .insert(
            "intel core i3-1005g1"@,
            KnownCpuView { expected_cores: 2, expected_threads: 4, cache_mb: 4, family: "Ice Lake"@ },
        )
        .insert(
            "intel core i5-1135g7"@,
            KnownCpuView { expected_cores: 4, expected_threads: 8, cache_mb: 8, family: "Tiger Lake"@ },
        )
        .insert(
            "intel core i7-1165g7"@,
            KnownCpuView { expected_cores: 4, expected_threads: 8, cache_mb: 12, family: "Tiger Lake"@ },
        )
        .insert(
            "intel core i5-1235u"@,
            KnownCpuView { expected_cores: 10, expected_threads: 12, cache_mb: 12, family: "Alder Lake"@ },
        )
        .insert(
            "intel core i7-1255u"@,
            KnownCpuView { expected_cores: 10, expected_threads: 12, cache_mb: 12, family: "Alder Lake"@ },
        )
        .insert(
            "intel core i5-1335u"@,
            KnownCpuView { expected_cores: 10, expected_threads: 12, cache_mb: 12, family: "Raptor Lake"@ },
        )
        .insert(
            "intel core i5-8250u"@,
            KnownCpuView { expected_cores: 4, expected_threads: 8, cache_mb: 6, family: "Kaby Lake R"@ },
        )
        .insert(
            "intel core i7-8565u"@,
            KnownCpuView { expected_cores: 4, expected_threads: 8, cache_mb: 8, family: "Whiskey Lake"@ },
        )
        .insert(
            "intel core i5-10210u"@,
            KnownCpuView { expected_cores: 4, expected_threads: 8, cache_mb: 6, family: "Comet Lake"@ },
        )
        .insert(
            "amd ryzen 5 5500u"@,
            KnownCpuView { expected_cores: 6, expected_threads: 12, cache_mb: 8, family: "Lucienne"@ },
        )
        .insert(
            "amd ryzen 7 5700u"@,
            KnownCpuView { expected_cores: 8, expected_threads: 16, cache_mb: 8, family: "Lucienne"@ },
        )
}

impl KnownModels {
    /// The bundled database.
    pub fn embedded() -> (db: Self)
        ensures
            db@ == bundled_cpus(),
    {
        let mut db = KnownModels::new();
    db.insert(
        String::from_str("intel core ultra 5 125h"),
        KnownCpu {
            expected_cores: 14,
            expected_threads: 18,
            cache_mb: 18,
            family: String::from_str("Meteor Lake"),
        },
    );
    db.insert(
        String::from_str("intel core ultra 7 155h"),
        KnownCpu {
            expected_cores: 16,
            expected_threads: 22,
            cache_mb: 24,
            family: String::from_str("Meteor Lake"),
        },
    );
    db.insert(
        String::from_str("intel core i3-1005g1"),
        KnownCpu {
            expected_cores: 2,
            expected_threads: 4,
            cache_mb: 4,
            family: String::from_str("Ice Lake"),
        },
    );
    db.insert(
        String::from_str("intel core i5-1135g7"),
        KnownCpu {
            expected_cores: 4,
            expected_threads: 8,
            cache_mb: 8,
            family: String::from_str("Tiger Lake"),
        },
    );
    db.insert(
        String::from_str("intel core i7-1165g7"),
        KnownCpu {
            expected_cores: 4,
            expected_threads: 8,
            cache_mb: 12,
            family: String::from_str("Tiger Lake"),
        },
    );
    db.insert(
        String::from_str("intel core i5-1235u"),
        KnownCpu {
            expected_cores: 10,
            expected_threads: 12,
            cache_mb: 12,
            family: String::from_str("Alder Lake"),
        },
    );
    db.insert(
        String::from_str("intel core i7-1255u"),
        KnownCpu {
            expected_cores: 10,
            expected_threads: 12,
            cache_mb: 12,
            family: String::from_str("Alder Lake"),
        },
    );
    db.insert(
        String::from_str("intel core i5-1335u"),
        KnownCpu {
            expected_cores: 10,
            expected_threads: 12,
            cache_mb: 12,
            family: String::from_str("Raptor Lake"),
        },
    );
    db.insert(
        String::from_str("intel core i5-8250u"),
        KnownCpu {
            expected_cores: 4,
            expected_threads: 8,
            cache_mb: 6,
            family: String::from_str("Kaby Lake R"),
        },
    );
    db.insert(
        String::from_str("intel core i7-8565u"),
        KnownCpu {
            expected_cores: 4,
            expected_threads: 8,
            cache_mb: 8,
            family: String::from_str("Whiskey Lake"),
        },
    );
    db.insert(
        String::from_str("intel core i5-10210u"),
        KnownCpu {
            expected_cores: 4,
            expected_threads: 8,
            cache_mb: 6,
            family: String::from_str("Comet Lake"),
        },
    );
    db.insert(
        String::from_str("amd ryzen 5 5500u"),
        KnownCpu {
            expected_cores: 6,
            expected_threads: 12,
            cache_mb: 8,
            family: String::from_str("Lucienne"),
        },
    );
    db.insert(
        String::from_str("amd ryzen 7 5700u"),
        KnownCpu {
            expected_cores: 8,
            expected_threads: 16,
            cache_mb: 8,
            family: String::from_str("Lucienne"),
        },
    );
        db
    }
}

} // verus!
