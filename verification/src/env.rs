//! A snapshot of process environment variables, as plain values.
use vstd::prelude::*;

verus! {

/// The value bound to `name` in `vars`: the first binding for that name.
pub open spec fn env_lookup(vars: Seq<(Seq<char>, Seq<char>)>, name: Seq<char>) -> Option<Seq<char>>
    decreases vars.len(),
{
    if vars.len() == 0 {
        None
    } else if vars[0].0 == name {
        Some(vars[0].1)
    } else {
        env_lookup(vars.drop_first(), name)
    }
}

/// Name/value pairs of environment variables whose values are valid Unicode.
pub struct Environment {
    vars: Vec<(String, String)>,
}

impl View for Environment {
    type V = Seq<(Seq<char>, Seq<char>)>;

    closed spec fn view(&self) -> Seq<(Seq<char>, Seq<char>)> {
        self.vars@.map_values(|p: (String, String)| (p.0@, p.1@))
    }
}

impl Environment {
    /// The value of the variable `name`, if it is set.
    pub open spec fn lookup(&self, name: Seq<char>) -> Option<Seq<char>> {
        env_lookup(self@, name)
    }

    /// An environment in which no variable is set.
    pub fn new() -> (res: Self)
        ensures
            res@ == Seq::<(Seq<char>, Seq<char>)>::empty(),
            forall|name: Seq<char>| res.lookup(name) is None,
    {
        let res = Environment { vars: Vec::new() };
        assert(res@ =~= Seq::empty());
        res
    }

    /// Binds `name` to `value`, replacing an earlier binding of `name`.
    pub fn set(&mut self, name: String, value: String)
        ensures
            final(self).lookup(name@) == Some(value@),
            forall|other: Seq<char>|
                other != name@ ==> final(self).lookup(other) == old(self).lookup(other),
    {
        let ghost old_view = self@;
        let ghost nv = name@;
        let ghost vv = value@;
        let mut i: usize = 0;
        while i < self.vars.len()
            invariant
                i <= self.vars.len(),
                self@ == old_view,
                old_view == old(self)@,
                nv == name@,
                vv == value@,
                forall|j: int| 0 <= j < i ==> self@[j].0 != name@,
            decreases self.vars.len() - i,
        {
            let same = self.vars[i].0.eq(&name);
            if same {
                assert(self.vars@[i as int].0@ == nv);
                let ghost before = self@;
                let ghost before_vars = self.vars@;
                assert(before[i as int].0 == before_vars[i as int].0@);
                self.vars.set(i, (name, value));
                proof {
                    assert forall|j: int| 0 <= j < self@.len() implies #[trigger] self@[j]
                        == before.update(i as int, (nv, vv))[j] by {
                        if j != i {
                            assert(self.vars@[j] == before_vars[j]);
                        }
                    }
                    assert(self@ =~= before.update(i as int, (nv, vv)));
                    lemma_lookup_update(before, i as int, nv, vv);
                }
                return;
            }
            i = i + 1;
        }
        let ghost before = self@;
        self.vars.push((name, value));
        proof {
            assert(self@ =~= before.push((nv, vv)));
            lemma_lookup_push(before, nv, vv);
        }
    }

    /// The value of the variable `name`, if it is set.
    pub fn get(&self, name: &String) -> (res: Option<String>)
        ensures
            match res {
                Some(v) => self.lookup(name@) == Some(v@),
                None => self.lookup(name@) is None,
            },
    {
        let mut i: usize = 0;
        assert(self@.skip(0) =~= self@);
        while i < self.vars.len()
            invariant
                i <= self.vars.len(),
                env_lookup(self@, name@) == env_lookup(self@.skip(i as int), name@),
            decreases self.vars.len() - i,
        {
            proof {
                assert(self@.skip(i as int)[0] == self@[i as int]);
                assert(self@.skip(i as int).drop_first() =~= self@.skip(i + 1));
            }
            if self.vars[i].0.eq(name) {
                return Some(self.vars[i].1.clone());
            }
            i = i + 1;
        }
        proof {
            assert(self@.skip(i as int).len() == 0);
        }
        None
    }
}

/// Lookup after replacing the binding at `i`, which is the first for `name`.
proof fn lemma_lookup_update(
    vars: Seq<(Seq<char>, Seq<char>)>,
    i: int,
    name: Seq<char>,
    value: Seq<char>,
)
    requires
        0 <= i < vars.len(),
        vars[i].0 == name,
        forall|j: int| 0 <= j < i ==> vars[j].0 != name,
    ensures
        env_lookup(vars.update(i, (name, value)), name) == Some(value),
        forall|other: Seq<char>|
            other != name ==> env_lookup(vars.update(i, (name, value)), other) == env_lookup(
                vars,
                other,
            ),
    decreases i,
{
    let upd = vars.update(i, (name, value));
    if i > 0 {
        lemma_lookup_update(vars.drop_first(), i - 1, name, value);
        assert(upd.drop_first() =~= vars.drop_first().update(i - 1, (name, value)));
        assert forall|other: Seq<char>| other != name implies env_lookup(upd, other) == env_lookup(
            vars,
            other,
        ) by {
            assert(env_lookup(upd.drop_first(), other) == env_lookup(vars.drop_first(), other));
        }
    } else {
        assert(upd.drop_first() =~= vars.drop_first());
    }
}

/// Lookup after appending a binding for a name that had none.
proof fn lemma_lookup_push(vars: Seq<(Seq<char>, Seq<char>)>, name: Seq<char>, value: Seq<char>)
    requires
        forall|j: int| 0 <= j < vars.len() ==> vars[j].0 != name,
    ensures
        env_lookup(vars.push((name, value)), name) == Some(value),
        forall|other: Seq<char>|
            other != name ==> env_lookup(vars.push((name, value)), other) == env_lookup(vars, other),
    decreases vars.len(),
{
    let pushed = vars.push((name, value));
    if vars.len() > 0 {
        lemma_lookup_push(vars.drop_first(), name, value);
        assert(pushed.drop_first() =~= vars.drop_first().push((name, value)));
        assert forall|other: Seq<char>| other != name implies env_lookup(pushed, other)
            == env_lookup(vars, other) by {
            assert(env_lookup(pushed.drop_first(), other) == env_lookup(vars.drop_first(), other));
        }
    } else {
        assert(pushed.drop_first() =~= Seq::<(Seq<char>, Seq<char>)>::empty());
        assert forall|other: Seq<char>| other != name implies env_lookup(pushed, other)
            == env_lookup(vars, other) by {
            assert(env_lookup(pushed.drop_first(), other) is None);
        }
    }
}

} // verus!
