//! The name-declaration table the parser carries: the variable names in
//! scope and the declared functions with their argument counts. A name must
//! not clash with another variable or function at declaration time.

use vstd::prelude::*;

use crate::util::str_eq;

verus! {

/// The declared names: variables in scope and functions with their arities.
#[derive(Debug)]
pub struct Declared {
    pub vars: Vec<String>,
    pub fns: Vec<(String, usize)>,
}

/// The map an association list of function arities denotes; an earlier
/// entry shadows a later one of the same name.
pub open spec fn spec_fns_map(fns: Seq<(String, usize)>) -> Map<Seq<char>, usize>
    decreases fns.len(),
{
    if fns.len() == 0 {
        Map::empty()
    } else {
        spec_fns_map(fns.drop_first()).insert(fns[0].0@, fns[0].1)
    }
}

/// The first entry of the association list with the given name.
pub open spec fn spec_fns_lookup(fns: Seq<(String, usize)>, name: Seq<char>) -> Option<usize>
    decreases fns.len(),
{
    if fns.len() == 0 {
        None
    } else if fns[0].0@ == name {
        Some(fns[0].1)
    } else {
        spec_fns_lookup(fns.drop_first(), name)
    }
}

/// The association list's first match is exactly the denoted map's entry,
/// as long as no two entries share a name.
pub proof fn lemma_fns_lookup_map(fns: Seq<(String, usize)>, name: Seq<char>)
    requires
        spec_fns_distinct(fns),
    ensures
        spec_fns_lookup(fns, name) == (if spec_fns_map(fns).contains_key(name) {
            Some(spec_fns_map(fns)[name])
        } else {
            None::<usize>
        }),
    decreases fns.len(),
{
    if fns.len() > 0 {
        lemma_fns_lookup_map(fns.drop_first(), name);
        if fns[0].0@ == name {
            if spec_fns_map(fns.drop_first()).contains_key(name) {
                lemma_fns_map_key_has_entry(fns.drop_first(), name);
            }
        }
    }
}

/// A key of the denoted map comes from some entry of the list.
pub proof fn lemma_fns_map_key_has_entry(fns: Seq<(String, usize)>, name: Seq<char>)
    requires
        spec_fns_map(fns).contains_key(name),
    ensures
        exists|i: int| 0 <= i < fns.len() && #[trigger] fns[i].0@ == name,
    decreases fns.len(),
{
    if fns.len() > 0 {
        if fns[0].0@ == name {
        } else {
            lemma_fns_map_key_has_entry(fns.drop_first(), name);
            let i = choose|i: int|
                0 <= i < fns.drop_first().len() && #[trigger] fns.drop_first()[i].0@ == name;
            assert(fns[i + 1].0@ == name);
        }
    }
}

/// No two entries of the arity list share a name.
pub open spec fn spec_fns_distinct(fns: Seq<(String, usize)>) -> bool {
    forall|i: int, j: int|
        0 <= i < j < fns.len() ==> #[trigger] fns[i].0@ != #[trigger] fns[j].0@
}

/// No two variable names are the same.
pub open spec fn spec_vars_distinct(vars: Seq<String>) -> bool {
    forall|i: int, j: int| 0 <= i < j < vars.len() ==> #[trigger] vars[i]@ != #[trigger] vars[j]@
}

impl Declared {
    /// The set of variable names in scope.
    pub open spec fn vset(self) -> Set<Seq<char>> {
        Set::new(|n: Seq<char>| exists|i: int| 0 <= i < self.vars@.len() && self.vars@[i]@ == n)
    }

    /// The map from function name to declared argument count.
    pub open spec fn fmap(self) -> Map<Seq<char>, usize> {
        spec_fns_map(self.fns@)
    }

    /// Whether the name is taken, as a variable or as a function.
    pub open spec fn spec_declared(self, name: Seq<char>) -> bool {
        self.vset().contains(name) || self.fmap().contains_key(name)
    }

    /// Each name stands at most once in each table.
    pub open spec fn wf(self) -> bool {
        spec_vars_distinct(self.vars@) && spec_fns_distinct(self.fns@)
    }

    /// An empty table.
    pub fn new() -> (r: Declared)
        ensures
            r.wf(),
            r.vset() == Set::<Seq<char>>::empty(),
            r.fmap() == Map::<Seq<char>, usize>::empty(),
    {
        let r = Declared { vars: Vec::new(), fns: Vec::new() };
        proof {
            assert(r.vset() =~= Set::<Seq<char>>::empty());
        }
        r
    }

    pub(crate) fn find_var(&self, name: &str) -> (r: Option<usize>)
        ensures
            match r {
                Some(i) => i < self.vars@.len() && self.vars@[i as int]@ == name@ && forall|j: int|
                    0 <= j < i ==> self.vars@[j]@ != name@,
                None => !self.vset().contains(name@),
            },
    {
        let n = self.vars.len();
        let mut i: usize = 0;
        while i < n
            invariant
                i <= n,
                n == self.vars@.len(),
                forall|j: int| 0 <= j < i ==> self.vars@[j]@ != name@,
            decreases n - i,
        {
            if str_eq(self.vars[i].as_str(), name) {
                return Some(i);
            }
            i = i + 1;
        }
        None
    }

    /// The declared arity of a function name, when there is one.
    pub fn find_fn(&self, name: &str) -> (r: Option<usize>)
        ensures
            r == spec_fns_lookup(self.fns@, name@),
    {
        let n = self.fns.len();
        let mut i: usize = 0;
        proof {
            assert(self.fns@.skip(0) =~= self.fns@);
        }
        while i < n
            invariant
                i <= n,
                n == self.fns@.len(),
                spec_fns_lookup(self.fns@, name@) == spec_fns_lookup(self.fns@.skip(i as int), name@),
            decreases n - i,
        {
            proof {
                assert(self.fns@.skip(i as int).drop_first() =~= self.fns@.skip(i + 1));
            }
            if str_eq(self.fns[i].0.as_str(), name) {
                return Some(self.fns[i].1);
            }
            i = i + 1;
        }
        None
    }

    /// Ok exactly when the name is free: not a variable in scope and not a
    /// declared function.
    pub fn assert_undeclared(&self, name: &str) -> (r: Result<(), String>)
        requires
            self.wf(),
        ensures
            r is Ok <==> !self.spec_declared(name@),
            r matches Err(e) ==> e@ == spec_taken_msg(name@),
    {
        proof {
            lemma_fns_lookup_map(self.fns@, name@);
        }
        if self.find_var(name).is_some() || self.find_fn(name).is_some() {
            let mut m = <String as vstd::string::StringExecFns>::from_str(
                "Variable or function name '",
            );
            <String as vstd::string::StringExecFns>::append(&mut m, name);
            <String as vstd::string::StringExecFns>::append(&mut m, "' is already declared");
            Err(m)
        } else {
            proof {
                assert(!self.vset().contains(name@));
            }
            Ok(())
        }
    }

    /// Declare a function with its arity; Ok exactly when the name is free,
    /// and then the arity map gains the one entry.
    pub fn fn_def(&mut self, fn_name: &str, args: usize) -> (r: Result<(), String>)
        requires
            old(self).wf(),
        ensures
            final(self).wf(),
            r is Ok <==> !old(self).spec_declared(fn_name@),
            r is Ok ==> final(self).fmap() == old(self).fmap().insert(fn_name@, args),
            r is Ok ==> final(self).vset() == old(self).vset(),
            r is Err ==> *final(self) == *old(self),
            r matches Err(e) ==> e@ == spec_taken_msg(fn_name@),
    {
        let check = self.assert_undeclared(fn_name);
        match check {
            Err(e) => Err(e),
            Ok(_) => {
                let owned = fn_name.to_owned();
                self.fns.insert(0, (owned, args));
                proof {
                    assert(self.fns@.drop_first() =~= old(self).fns@);
                    lemma_undeclared_fn_insert_distinct(old(self).fns@, fn_name@);
                    assert(final(self).vset() =~= old(self).vset());
                }
                Ok(())
            },
        }
    }

    /// Declare a variable; Ok exactly when the name is free, and then the
    /// variable set gains the one name.
    pub fn var_dec(&mut self, var_name: &str) -> (r: Result<(), String>)
        requires
            old(self).wf(),
        ensures
            final(self).wf(),
            r is Ok <==> !old(self).spec_declared(var_name@),
            r is Ok ==> final(self).vset() == old(self).vset().insert(var_name@),
            r is Ok ==> final(self).fmap() == old(self).fmap(),
            r is Err ==> *final(self) == *old(self),
            r matches Err(e) ==> e@ == spec_taken_msg(var_name@),
    {
        let check = self.assert_undeclared(var_name);
        match check {
            Err(e) => Err(e),
            Ok(_) => {
                let owned = var_name.to_owned();
                self.vars.push(owned);
                proof {
                    let sa = self.vset();
                    let sb = old(self).vset().insert(var_name@);
                    assert forall|n: Seq<char>| #[trigger] sa.contains(n) implies sb.contains(
                        n,
                    ) by {
                        let k = choose|k: int| 0 <= k < self.vars@.len() && self.vars@[k]@ == n;
                        if k < old(self).vars@.len() {
                            assert(old(self).vars@[k]@ == n);
                        }
                    }
                    assert forall|n: Seq<char>| #[trigger] sb.contains(n) implies sa.contains(
                        n,
                    ) by {
                        if n == var_name@ {
                            assert(self.vars@[self.vars@.len() - 1]@ == n);
                        } else {
                            let k = choose|k: int|
                                0 <= k < old(self).vars@.len() && old(self).vars@[k]@ == n;
                            assert(self.vars@[k]@ == n);
                        }
                    }
                    assert(sa =~= sb);
                    assert forall|i: int, j: int|
                        0 <= i < j < self.vars@.len() implies #[trigger] self.vars@[i]@
                        != #[trigger] self.vars@[j]@ by {
                        if j == self.vars@.len() - 1 {
                            assert(!old(self).vset().contains(self.vars@[j]@));
                        }
                    }
                }
                Ok(())
            },
        }
    }

    /// Take a variable out of scope; Ok exactly when it was in scope, and
    /// then the variable set loses the one name.
    pub fn var_undec(&mut self, var_name: &str) -> (r: Result<(), String>)
        requires
            old(self).wf(),
        ensures
            final(self).wf(),
            r is Ok <==> old(self).vset().contains(var_name@),
            r is Ok ==> final(self).vset() == old(self).vset().remove(var_name@),
            r is Ok ==> final(self).fmap() == old(self).fmap(),
            r is Err ==> *final(self) == *old(self),
    {
        match self.find_var(var_name) {
            Some(i) => {
                self.vars.remove(i);
                proof {
                    lemma_vars_remove_set(old(self).vars@, i as int, var_name@);
                    assert(final(self).vset() =~= old(self).vset().remove(var_name@));
                }
                Ok(())
            },
            None => {
                let mut m = <String as vstd::string::StringExecFns>::from_str(
                    "Undeclaring variable '",
                );
                <String as vstd::string::StringExecFns>::append(&mut m, var_name);
                <String as vstd::string::StringExecFns>::append(&mut m, "' that did not declare");
                Err(m)
            },
        }
    }

    /// The table a function body is parsed under: no variables of the
    /// enclosing scope, the same functions.
    pub fn novar(&self) -> (r: Declared)
        requires
            self.wf(),
        ensures
            r.wf(),
            r.vset() == Set::<Seq<char>>::empty(),
            r.fmap() == self.fmap(),
            r.fns@ == self.fns@,
    {
        let n = self.fns.len();
        let mut fns2: Vec<(String, usize)> = Vec::new();
        let mut i: usize = 0;
        while i < n
            invariant
                i <= n,
                n == self.fns@.len(),
                fns2@.len() == i,
                forall|j: int| 0 <= j < i ==> #[trigger] fns2@[j] == self.fns@[j],
            decreases n - i,
        {
            let name = self.fns[i].0.clone();
            let arity = self.fns[i].1;
            fns2.push((name, arity));
            i = i + 1;
        }
        proof {
            assert(fns2@ =~= self.fns@);
        }
        let r = Declared { vars: Vec::new(), fns: fns2 };
        proof {
            assert(r.vset() =~= Set::<Seq<char>>::empty());
        }
        r
    }
}

/// The message a clashing declaration produces.
pub open spec fn spec_taken_msg(name: Seq<char>) -> Seq<char> {
    "Variable or function name '"@ + name + "' is already declared"@
}

/// The message undeclaring an unknown variable produces.
pub open spec fn spec_undeclare_msg(name: Seq<char>) -> Seq<char> {
    "Undeclaring variable '"@ + name + "' that did not declare"@
}

proof fn lemma_undeclared_fn_insert_distinct(fns: Seq<(String, usize)>, name: Seq<char>)
    requires
        spec_fns_distinct(fns),
        !spec_fns_map(fns).contains_key(name),
    ensures
        forall|i: int| 0 <= i < fns.len() ==> #[trigger] fns[i].0@ != name,
{
    assert forall|i: int| 0 <= i < fns.len() implies #[trigger] fns[i].0@ != name by {
        if fns[i].0@ == name {
            lemma_fns_entry_in_map(fns, i);
        }
    }
}

proof fn lemma_fns_entry_in_map(fns: Seq<(String, usize)>, i: int)
    requires
        0 <= i < fns.len(),
    ensures
        spec_fns_map(fns).contains_key(fns[i].0@),
    decreases fns.len(),
{
    if i > 0 {
        lemma_fns_entry_in_map(fns.drop_first(), i - 1);
    }
}

proof fn lemma_vars_remove_set(vars: Seq<String>, i: int, name: Seq<char>)
    requires
        spec_vars_distinct(vars),
        0 <= i < vars.len(),
        vars[i]@ == name,
        forall|j: int| 0 <= j < i ==> vars[j]@ != name,
    ensures
        spec_vars_distinct(vars.remove(i)),
        Set::new(
            |n: Seq<char>| exists|k: int| 0 <= k < vars.remove(i).len() && vars.remove(i)[k]@ == n,
        ) =~= Set::new(|n: Seq<char>| exists|k: int| 0 <= k < vars.len() && vars[k]@ == n).remove(
            name,
        ),
{
    let v2 = vars.remove(i);
    let sa = Set::new(|n: Seq<char>| exists|k: int| 0 <= k < v2.len() && v2[k]@ == n);
    let sb = Set::new(|n: Seq<char>| exists|k: int| 0 <= k < vars.len() && vars[k]@ == n);
    assert forall|n: Seq<char>| #[trigger] sa.contains(n) implies sb.remove(name).contains(n) by {
        let k = choose|k: int| 0 <= k < v2.len() && v2[k]@ == n;
        if k < i {
            assert(vars[k]@ == n);
        } else {
            assert(vars[k + 1]@ == n);
        }
    }
    assert forall|n: Seq<char>| #[trigger] sb.remove(name).contains(n) implies sa.contains(n) by {
        let k = choose|k: int| 0 <= k < vars.len() && vars[k]@ == n;
        if k < i {
            assert(v2[k]@ == n);
        } else {
            assert(k != i);
            assert(v2[k - 1]@ == n);
        }
    }
    assert(sa =~= sb.remove(name));
}

} // verus!
