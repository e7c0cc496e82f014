//! What one generation pass produced, grouped by agent.

use vstd::prelude::*;

verus! {

/// The files each agent received, in the order they were produced.
pub struct GenerationResult {
    pub files_by_agent: Vec<(String, Vec<String>)>,
}

/// The mathematical model of the grouping: agent names with their files.
pub open spec fn spec_groups(groups: Seq<(String, Vec<String>)>) -> Seq<
    (Seq<char>, Seq<Seq<char>>),
> {
    groups.map_values(
        |g: (String, Vec<String>)| (g.0@, g.1@.map_values(|f: String| f@)),
    )
}

/// The position of the first group with the agent's name, if any.
pub open spec fn spec_group_index(groups: Seq<(Seq<char>, Seq<Seq<char>>)>, agent: Seq<char>) -> Option<
    int,
>
    decreases groups.len(),
{
    if groups.len() == 0 {
        None
    } else if groups[0].0 == agent {
        Some(0int)
    } else {
        match spec_group_index(groups.drop_first(), agent) {
            Some(i) => Some(i + 1),
            None => None,
        }
    }
}

impl View for GenerationResult {
    type V = Seq<(Seq<char>, Seq<Seq<char>>)>;

    open spec fn view(&self) -> Seq<(Seq<char>, Seq<Seq<char>>)> {
        spec_groups(self.files_by_agent@)
    }
}

impl GenerationResult {
    pub fn new() -> (r: GenerationResult)
        ensures
            r@ =~= Seq::<(Seq<char>, Seq<Seq<char>>)>::empty(),
    {
        let r = GenerationResult { files_by_agent: Vec::new() };
        proof {
            assert(r@ =~= Seq::<(Seq<char>, Seq<Seq<char>>)>::empty());
        }
        r
    }

    /// Records one produced file under its agent: appended to the agent's
    /// first existing group, or opening a new group at the end.
    pub fn add_file(&mut self, agent: &str, file_path: String)
        ensures
            final(self)@ == match spec_group_index(old(self)@, agent@) {
                Some(i) => old(self)@.update(
                    i,
                    (old(self)@[i].0, old(self)@[i].1.push(file_path@)),
                ),
                None => old(self)@.push((agent@, seq![file_path@])),
            },
    {
        let ghost g0 = self@;
        let mut i: usize = 0;
        proof {
            assert(g0.subrange(0, g0.len() as int) =~= g0);
        }
        while i < self.files_by_agent.len()
            invariant
                i <= self.files_by_agent@.len(),
                g0 == self@,
                old(self)@ == self@,
                spec_group_index(g0, agent@) == match spec_group_index(
                    g0.subrange(i as int, g0.len() as int),
                    agent@,
                ) {
                    Some(j) => Some(j + i),
                    None => None::<int>,
                },
                forall|k: int| 0 <= k < i ==> (#[trigger] g0[k]).0 != agent@,
            decreases self.files_by_agent@.len() - i,
        {
            let ghost tail = g0.subrange(i as int, g0.len() as int);
            proof {
                assert(tail.len() > 0);
                assert(tail[0] == g0[i as int]);
                assert(g0[i as int] == (self.files_by_agent@[i as int].0@, self.files_by_agent@[
                    i as int].1@.map_values(|f: String| f@)));
                assert(tail.drop_first() =~= g0.subrange(i + 1, g0.len() as int));
            }
            if crate::text::str_eq(self.files_by_agent[i].0.as_str(), agent) {
                proof {
                    assert(spec_group_index(tail, agent@) == Some(0int));
                    assert(spec_group_index(g0, agent@) == Some(i as int));
                }
                let mut updated: Vec<(String, Vec<String>)> = Vec::new();
                let mut k: usize = 0;
                while k < self.files_by_agent.len()
                    invariant
                        i < self.files_by_agent@.len(),
                        k <= self.files_by_agent@.len(),
                        g0 == self@,
                        old(self)@ == self@,
                        updated@.len() == k,
                        forall|m: int|
                            0 <= m < k ==> spec_groups(updated@)[m] == (if m == i {
                                (g0[m].0, g0[m].1.push(file_path@))
                            } else {
                                g0[m]
                            }),
                    decreases self.files_by_agent@.len() - k,
                {
                    proof {
                        assert(g0[k as int] == (self.files_by_agent@[k as int].0@, self.files_by_agent@[
                            k as int].1@.map_values(|f: String| f@)));
                    }
                    if k == i {
                        let mut files = crate::source_file::clone_string_vec(
                            &self.files_by_agent[k].1,
                        );
                        files.push(file_path.clone());
                        let ghost fv = files@.map_values(|f: String| f@);
                        proof {
                            assert(fv =~= g0[k as int].1.push(file_path@));
                        }
                        let ghost prevu = updated@;
                        updated.push((self.files_by_agent[k].0.clone(), files));
                        proof {
                            assert(spec_groups(updated@)[k as int] == (g0[k as int].0, g0[
                                k as int].1.push(file_path@)));
                            assert forall|m: int| 0 <= m < prevu.len() implies #[trigger]
                            spec_groups(updated@)[m] == spec_groups(prevu)[m] by {
                                assert(updated@[m] == prevu[m]);
                            }
                        }
                    } else {
                        let files = crate::source_file::clone_string_vec(&self.files_by_agent[k].1);
                        let ghost fv = files@.map_values(|f: String| f@);
                        proof {
                            assert(fv =~= g0[k as int].1);
                        }
                        let ghost prevu = updated@;
                        updated.push((self.files_by_agent[k].0.clone(), files));
                        proof {
                            assert(spec_groups(updated@)[k as int] == g0[k as int]);
                            assert forall|m: int| 0 <= m < prevu.len() implies #[trigger]
                            spec_groups(updated@)[m] == spec_groups(prevu)[m] by {
                                assert(updated@[m] == prevu[m]);
                            }
                        }
                    }
                    k += 1;
                }
                self.files_by_agent = updated;
                proof {
                    assert(final(self)@ =~= g0.update(
                        i as int,
                        (g0[i as int].0, g0[i as int].1.push(file_path@)),
                    ));
                }
                return ;
            }
            i += 1;
        }
        proof {
            assert(g0.subrange(i as int, g0.len() as int).len() == 0);
            assert(spec_group_index(g0, agent@) is None);
        }
        let ghost pre = self@;
        let mut files: Vec<String> = Vec::new();
        files.push(file_path);
        let ghost fview = files@.map_values(|f: String| f@);
        proof {
            assert(fview =~= seq![files@[0]@]);
        }
        self.files_by_agent.push((agent.to_owned(), files));
        proof {
            let g1 = final(self).files_by_agent@;
            assert(final(self)@ =~= pre.push((g1.last().0@, g1.last().1@.map_values(|f: String| f@))));
        }
    }
}

} // verus!
