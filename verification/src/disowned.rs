//! The withdrawn-contribution reassignment table: newline-separated
//! `identifier:name` pairs, parsed strictly (a malformed identifier is
//! fatal, a line without a colon is skipped) into an identifier-keyed map.

use std::collections::HashMap;
use vstd::prelude::*;
use vstd::string::StrSliceExecFns;
use crate::parse::SchemaError;
use crate::text::{digits_val, find_char, first_pos, is_u64_digits, lemma_first_pos, parse_u64};

verus! {

broadcast use vstd::std_specs::hash::group_hash_axioms;

/// The views of a list of owned lines.
pub open spec fn lines_view(lines: Seq<String>) -> Seq<Seq<char>> {
    Seq::new(lines.len(), |i: int| lines[i]@)
}

/// What one reassignment line denotes. The outer `None` is a malformed
/// identifier (fatal); the inner `None` a line without a colon (skipped).
pub open spec fn spec_disowned_line(l: Seq<char>) -> Option<Option<(u64, Seq<char>)>> {
    let i = first_pos(l, ':');
    if i == l.len() {
        Option::Some(Option::None)
    } else if is_u64_digits(l.take(i)) {
        Option::Some(Option::Some((digits_val(l.take(i)) as u64, l.skip(i + 1))))
    } else {
        Option::None
    }
}

/// The table a list of lines denotes, later lines overwriting earlier ones,
/// or nothing if any line is malformed.
pub open spec fn spec_disowned(lines: Seq<Seq<char>>) -> Option<Map<u64, Seq<char>>>
    decreases lines.len(),
{
    if lines.len() == 0 {
        Option::Some(Map::empty())
    } else {
        match spec_disowned(lines.drop_last()) {
            Option::None => Option::None,
            Option::Some(m) => match spec_disowned_line(lines.last()) {
                Option::None => Option::None,
                Option::Some(Option::None) => Option::Some(m),
                Option::Some(Option::Some(kv)) => Option::Some(m.insert(kv.0, kv.1)),
            },
        }
    }
}

proof fn lemma_disowned_none_propagates(lines: Seq<Seq<char>>, j: int)
    requires
        0 <= j <= lines.len(),
        spec_disowned(lines.take(j)) is None,
    ensures
        spec_disowned(lines) is None,
    decreases lines.len() - j,
{
    if j < lines.len() {
        assert(lines.take(j + 1).drop_last() =~= lines.take(j));
        lemma_disowned_none_propagates(lines, j + 1);
    } else {
        assert(lines.take(j) =~= lines);
    }
}

/// Lookup table from record identifier to the replacement owner name for
/// withdrawn contributions.
pub struct DisownedTable {
    map: HashMap<u64, String>,
}

impl View for DisownedTable {
    type V = Map<u64, Seq<char>>;

    closed spec fn view(&self) -> Map<u64, Seq<char>> {
        self.map@.map_values(|s: String| s@)
    }
}

impl DisownedTable {
    /// Builds the table from the reassignment file's lines.
    pub fn from_lines(lines: &Vec<String>) -> (r: Result<DisownedTable, SchemaError>)
        ensures
            match spec_disowned(lines_view(lines@)) {
                Option::Some(m) => r matches Ok(t) && t@ == m,
                Option::None => r matches Err(e) && e == SchemaError::BadNumber,
            },
    {
        let ghost all = lines_view(lines@);
        let mut map: HashMap<u64, String> = HashMap::new();
        let mut i: usize = 0;
        proof {
            assert(all.take(0) =~= Seq::<Seq<char>>::empty());
            assert(map@.map_values(|s: String| s@) =~= Map::<u64, Seq<char>>::empty());
        }
        while i < lines.len()
            invariant
                i <= lines@.len(),
                all == lines_view(lines@),
                spec_disowned(all.take(i as int)) == Option::Some(
                    map@.map_values(|s: String| s@),
                ),
            decreases lines@.len() - i,
        {
            let line: &String = &lines[i];
            let l = line.as_str();
            let n = l.unicode_len();
            let c = find_char(l, ':');
            proof {
                lemma_first_pos(l@, ':');
                assert(all.take(i + 1).drop_last() =~= all.take(i as int));
                assert(all.take(i + 1).last() == l@);
            }
            if c < n {
                let key_part = l.substring_char(0, c);
                proof {
                    assert(key_part@ =~= l@.take(c as int));
                }
                match parse_u64(key_part) {
                    Some(gid) => {
                        let name = l.substring_char(c + 1, n);
                        proof {
                            assert(name@ =~= l@.skip(c + 1));
                        }
                        let ghost before = map@.map_values(|s: String| s@);
                        map.insert(gid, name.to_owned());
                        proof {
                            assert(map@.map_values(|s: String| s@) =~= before.insert(
                                gid,
                                l@.skip(c + 1),
                            ));
                        }
                    },
                    None => {
                        proof {
                            assert(spec_disowned_line(l@) is None);
                            assert(spec_disowned(all.take(i + 1)) is None);
                            lemma_disowned_none_propagates(all, i + 1);
                        }
                        return Err(SchemaError::BadNumber);
                    },
                }
            }
            i += 1;
        }
        proof {
            assert(all.take(i as int) =~= all);
        }
        Ok(DisownedTable { map })
    }

    /// The replacement owner name recorded for `gid`, if any.
    pub fn get(&self, gid: u64) -> (r: Option<&String>)
        ensures
            match r {
                Option::Some(s) => self@.contains_key(gid) && s@ == self@[gid],
                Option::None => !self@.contains_key(gid),
            },
    {
        self.map.get(&gid)
    }

    pub fn len(&self) -> (n: usize)
        ensures
            n == self@.dom().len(),
    {
        let n = self.map.len();
        proof {
            assert(self@.dom() =~= self.map@.dom());
        }
        n
    }
}

} // verus!
