//! The registry: student records keyed by id, and the counter that issues ids.
use std::collections::HashMap;
use vstd::prelude::*;

use crate::student::{Status, Student, StudentView};
use crate::text::{check_birth_date, check_cr, check_name, cr_error, date_error, name_error, StudentError};

verus! {

broadcast use vstd::std_specs::hash::group_hash_axioms;

/// The record that `create_student` stores under `id`.
pub open spec fn record_of(
    id: u32,
    name: Seq<char>,
    birth_date: Seq<char>,
    cr: Option<i32>,
    status: Option<Status>,
) -> StudentView {
    StudentView { id, name, birth_date, cr, status }
}

/// The characters of an optional text.
pub open spec fn text_opt(o: Option<String>) -> Option<Seq<char>> {
    match o {
        Some(s) => Some(s@),
        None => None,
    }
}

/// The first failing check on the fields of a new record, in the order name,
/// birth date, score; none when checks are off.
pub open spec fn create_error(
    validates: bool,
    name: Seq<char>,
    birth_date: Seq<char>,
    cr: Option<i32>,
) -> Option<StudentError> {
    if !validates {
        None
    } else if name_error(name) is Some {
        name_error(name)
    } else if date_error(birth_date) is Some {
        date_error(birth_date)
    } else {
        cr_error(cr)
    }
}

/// The first failing check on the fields that an update supplies, in the
/// order name, birth date, score; none when checks are off.
pub open spec fn update_error(
    validates: bool,
    name: Option<Seq<char>>,
    birth_date: Option<Seq<char>>,
    cr: Option<i32>,
) -> Option<StudentError> {
    let ne = match name {
        Some(n) => name_error(n),
        None => None,
    };
    let de = match birth_date {
        Some(d) => date_error(d),
        None => None,
    };
    if !validates {
        None
    } else if ne is Some {
        ne
    } else if de is Some {
        de
    } else {
        cr_error(cr)
    }
}

/// `s` with each supplied field replaced; for the status, the outer layer says
/// whether to change it and the inner one gives the new value, absent included.
pub open spec fn apply_update(
    s: StudentView,
    name: Option<Seq<char>>,
    birth_date: Option<Seq<char>>,
    cr: Option<i32>,
    status: Option<Option<Status>>,
) -> StudentView {
    StudentView {
        id: s.id,
        name: match name {
            Some(n) => n,
            None => s.name,
        },
        birth_date: match birth_date {
            Some(d) => d,
            None => s.birth_date,
        },
        cr: match cr {
            Some(c) => Some(c),
            None => s.cr,
        },
        status: match status {
            Some(st) => st,
            None => s.status,
        },
    }
}

/// The records whose ids lie in `1..hi`, in ascending id order.
pub open spec fn listing(m: Map<u32, StudentView>, hi: nat) -> Seq<StudentView>
    decreases hi,
{
    if hi <= 1 {
        Seq::empty()
    } else {
        let rest = listing(m, (hi - 1) as nat);
        let k = (hi - 1) as u32;
        if m.contains_key(k) {
            rest.push(m[k])
        } else {
            rest
        }
    }
}

/// The student records and the id counter.
pub struct StudentContract {
    students: HashMap<u32, Student>,
    next_id: u32,
    validate: bool,
}

impl StudentContract {
    /// The records, by id.
    pub closed spec fn records(&self) -> Map<u32, StudentView> {
        self.students@.map_values(|s: Student| s@)
    }

    /// The id that the next successful `create_student` issues.
    pub closed spec fn counter(&self) -> u32 {
        self.next_id
    }

    /// Whether field checks are on.
    pub closed spec fn validates(&self) -> bool {
        self.validate
    }

    /// Every record sits under its own id, and every id lies below the counter.
    pub open spec fn wf(&self) -> bool {
        &&& self.counter() >= 1
        &&& forall|k: u32| #[trigger]
            self.records().contains_key(k) ==> 1 <= k < self.counter() && self.records()[k].id == k
    }

    /// What `get_student(id)` finds.
    pub open spec fn lookup(&self, id: u32) -> Option<StudentView> {
        if self.records().contains_key(id) {
            Some(self.records()[id])
        } else {
            None
        }
    }

    /// `post` and `r` are what `create_student` may leave and return from `pre`.
    pub open spec fn created(
        pre: StudentContract,
        post: StudentContract,
        name: Seq<char>,
        birth_date: Seq<char>,
        cr: Option<i32>,
        status: Option<Status>,
        r: Result<u32, StudentError>,
    ) -> bool {
        &&& post.validates() == pre.validates()
        &&& if pre.counter() == u32::MAX {
            &&& r == Err::<u32, StudentError>(StudentError::IdOverflow)
            &&& post.records() == pre.records()
            &&& post.counter() == pre.counter()
        } else {
            match create_error(pre.validates(), name, birth_date, cr) {
                Some(e) => {
                    &&& r == Err::<u32, StudentError>(e)
                    &&& post.records() == pre.records()
                    &&& post.counter() == pre.counter()
                },
                None => {
                    &&& r == Ok::<u32, StudentError>(pre.counter())
                    &&& post.counter() == pre.counter() + 1
                    &&& post.records() == pre.records().insert(
                        pre.counter(),
                        record_of(pre.counter(), name, birth_date, cr, status),
                    )
                },
            }
        }
    }

    /// `post` and `r` are what `update_student` may leave and return from `pre`.
    pub open spec fn updated(
        pre: StudentContract,
        post: StudentContract,
        id: u32,
        name: Option<Seq<char>>,
        birth_date: Option<Seq<char>>,
        cr: Option<i32>,
        status: Option<Option<Status>>,
        r: Result<bool, StudentError>,
    ) -> bool {
        &&& post.validates() == pre.validates()
        &&& post.counter() == pre.counter()
        &&& if !pre.records().contains_key(id) {
            &&& r == Ok::<bool, StudentError>(false)
            &&& post.records() == pre.records()
        } else {
            match update_error(pre.validates(), name, birth_date, cr) {
                Some(e) => {
                    &&& r == Err::<bool, StudentError>(e)
                    &&& post.records() == pre.records()
                },
                None => {
                    &&& r == Ok::<bool, StudentError>(true)
                    &&& post.records() == pre.records().insert(
                        id,
                        apply_update(pre.records()[id], name, birth_date, cr, status),
                    )
                },
            }
        }
    }

    /// `post` and `r` are what `delete_student` may leave and return from `pre`.
    pub open spec fn deleted(pre: StudentContract, post: StudentContract, id: u32, r: bool) -> bool {
        &&& post.validates() == pre.validates()
        &&& post.counter() == pre.counter()
        &&& r == pre.records().contains_key(id)
        &&& post.records() == pre.records().remove(id)
    }

    /// An empty registry with field checks on; the first id it issues is 1.
    pub fn new() -> (r: StudentContract)
        ensures
            r.wf(),
            r.records() == Map::<u32, StudentView>::empty(),
            r.counter() == 1,
            r.validates(),
    {
        Self::with_validation(true)
    }

    /// An empty registry whose field checks are on or off as `validate` says.
    pub fn with_validation(validate: bool) -> (r: StudentContract)
        ensures
            r.wf(),
            r.records() == Map::<u32, StudentView>::empty(),
            r.counter() == 1,
            r.validates() == validate,
    {
        let r = StudentContract { students: HashMap::new(), next_id: 1, validate };
        assert(r.records() =~= Map::<u32, StudentView>::empty());
        r
    }
    /// Runs the field checks that `create_student` makes, in the order name,
    /// birth date, score.
    fn check_fields(&self, name: &String, birth_date: &String, cr: Option<i32>) -> (r: Result<
        (),
        StudentError,
    >)
        ensures
            r == match create_error(self.validates(), name@, birth_date@, cr) {
                Some(e) => Err(e),
                None => Ok(()),
            },
    {
        if !self.validate {
            return Ok(());
        }
        match check_name(name.as_str()) {
            Err(e) => return Err(e),
            Ok(()) => {},
        }
        match check_birth_date(birth_date.as_str()) {
            Err(e) => return Err(e),
            Ok(()) => {},
        }
        check_cr(cr)
    }

    /// Adds a record with the next id and returns that id. Fails, leaving the
    /// registry as it was, where the counter cannot advance or a field check fails.
    pub fn create_student(
        &mut self,
        name: String,
        birth_date: String,
        cr: Option<i32>,
        status: Option<Status>,
    ) -> (r: Result<u32, StudentError>)
        requires
            old(self).wf(),
        ensures
            final(self).wf(),
            Self::created(*old(self), *final(self), name@, birth_date@, cr, status, r),
            r matches Ok(id) ==> forall|k: u32| #[trigger]
                old(self).records().contains_key(k) ==> k < id,
    {
        let id = self.next_id;
        let next = match self.next_id.checked_add(1) {
            Some(n) => n,
            None => return Err(StudentError::IdOverflow),
        };
        match self.check_fields(&name, &birth_date, cr) {
            Err(e) => return Err(e),
            Ok(()) => {},
        }
        let student = Student { id, name, birth_date, cr, status };
        self.students.insert(id, student);
        self.next_id = next;
        proof {
            assert(self.records() =~= old(self).records().insert(
                id,
                record_of(id, name@, birth_date@, cr, status),
            ));
        }
        Ok(id)
    }

    /// All records, in ascending id order: ids `1..counter()` that are present.
    pub fn get_all_students(&self) -> (r: Vec<Student>)
        requires
            self.wf(),
        ensures
            r@.map_values(|s: Student| s@) == listing(self.records(), self.counter() as nat),
    {
        let mut out: Vec<Student> = Vec::new();
        let mut id: u32 = 1;
        assert(out@.map_values(|s: Student| s@) =~= listing(self.records(), 1));
        while id < self.next_id
            invariant
                self.wf(),
                1 <= id <= self.next_id,
                out@.map_values(|s: Student| s@) == listing(self.records(), id as nat),
            decreases self.next_id - id,
        {
            let ghost before = out@;
            match self.students.get(&id) {
                Some(s) => {
                    out.push(s.duplicate());
                    assert(out@.map_values(|s: Student| s@) =~= before.map_values(
                        |s: Student| s@,
                    ).push(self.records()[id]));
                },
                None => {},
            }
            id = id + 1;
        }
        out
    }

    /// The record under `id`, if there is one.
    pub fn get_student(&self, id: u32) -> (r: Option<Student>)
        ensures
            match r {
                Some(s) => self.lookup(id) == Some(s@),
                None => self.lookup(id) is None,
            },
    {
        match self.students.get(&id) {
            Some(s) => Some(s.duplicate()),
            None => None,
        }
    }

    /// Replaces the supplied fields of the record under `id`. Returns false where
    /// there is none; fails, changing nothing, where a supplied field fails its check.
    pub fn update_student(
        &mut self,
        id: u32,
        name: Option<String>,
        birth_date: Option<String>,
        cr: Option<i32>,
        status: Option<Option<Status>>,
    ) -> (r: Result<bool, StudentError>)
        requires
            old(self).wf(),
        ensures
            final(self).wf(),
            Self::updated(
                *old(self),
                *final(self),
                id,
                text_opt(name),
                text_opt(birth_date),
                cr,
                status,
                r,
            ),
    {
        let mut student = match self.students.get(&id) {
            Some(s) => s.duplicate(),
            None => return Ok(false),
        };
        if self.validate {
            match &name {
                Some(n) => match check_name(n.as_str()) {
                    Err(e) => return Err(e),
                    Ok(()) => {},
                },
                None => {},
            }
            match &birth_date {
                Some(d) => match check_birth_date(d.as_str()) {
                    Err(e) => return Err(e),
                    Ok(()) => {},
                },
                None => {},
            }
            match check_cr(cr) {
                Err(e) => return Err(e),
                Ok(()) => {},
            }
        }
        let ghost pre = student@;
        match name {
            Some(n) => {
                student.name = n;
            },
            None => {},
        }
        match birth_date {
            Some(d) => {
                student.birth_date = d;
            },
            None => {},
        }
        match cr {
            Some(c) => {
                student.cr = Some(c);
            },
            None => {},
        }
        match status {
            Some(st) => {
                student.status = st;
            },
            None => {},
        }
        assert(student@ == apply_update(pre, text_opt(name), text_opt(birth_date), cr, status));
        self.students.insert(id, student);
        proof {
            assert(self.records() =~= old(self).records().insert(
                id,
                apply_update(old(self).records()[id], text_opt(name), text_opt(birth_date), cr, status),
            ));
            assert(old(self).records().contains_key(id));
            assert forall|k: u32| #[trigger] self.records().contains_key(k) implies 1 <= k
                < self.counter() && self.records()[k].id == k by {
                if k != id {
                    assert(old(self).records().contains_key(k));
                }
            }
        }
        Ok(true)
    }

    /// Removes the record under `id`; returns whether there was one.
    pub fn delete_student(&mut self, id: u32) -> (r: bool)
        requires
            old(self).wf(),
        ensures
            final(self).wf(),
            Self::deleted(*old(self), *final(self), id, r),
    {
        let removed = self.students.remove(&id);
        proof {
            assert(self.records() =~= old(self).records().remove(id));
        }
        removed.is_some()
    }
}

/// `post` is what one call of `create_student`, `update_student` or
/// `delete_student` may leave from `pre`; `id` is the id that an update or a
/// delete names, and plays no part for a create.
pub open spec fn one_call(pre: StudentContract, post: StudentContract, id: u32) -> bool {
    ||| exists|
        name: Seq<char>,
        birth_date: Seq<char>,
        cr: Option<i32>,
        status: Option<Status>,
        r: Result<u32, StudentError>,
    | #[trigger] StudentContract::created(pre, post, name, birth_date, cr, status, r)
    ||| exists|
        name: Option<Seq<char>>,
        birth_date: Option<Seq<char>>,
        cr: Option<i32>,
        status: Option<Option<Status>>,
        r: Result<bool, StudentError>,
    | #[trigger] StudentContract::updated(pre, post, id, name, birth_date, cr, status, r)
    ||| exists|r: bool| #[trigger] StudentContract::deleted(pre, post, id, r)
}

/// `states` are the registries that a run of mutating calls passes through,
/// the `i`-th call naming `ids[i]`; calls that only read change nothing.
pub open spec fn run(states: Seq<StudentContract>, ids: Seq<u32>) -> bool {
    &&& states.len() == ids.len() + 1
    &&& forall|i: int| 0 <= i < ids.len() ==> #[trigger] one_call(states[i], states[i + 1], ids[i])
}

proof fn lemma_one_call_facts(pre: StudentContract, post: StudentContract, id: u32)
    requires
        one_call(pre, post, id),
    ensures
        post.counter() >= pre.counter(),
        forall|keep: u32|
            keep < pre.counter() && keep != id ==> #[trigger] post.lookup(keep) == pre.lookup(
                keep,
            ),
{
    if exists|
        name: Seq<char>,
        birth_date: Seq<char>,
        cr: Option<i32>,
        status: Option<Status>,
        r: Result<u32, StudentError>,
    | #[trigger] StudentContract::created(pre, post, name, birth_date, cr, status, r) {
        let (name, birth_date, cr, status, r) = choose|
            name: Seq<char>,
            birth_date: Seq<char>,
            cr: Option<i32>,
            status: Option<Status>,
            r: Result<u32, StudentError>,
        | #[trigger] StudentContract::created(pre, post, name, birth_date, cr, status, r);
        assert(StudentContract::created(pre, post, name, birth_date, cr, status, r));
    } else if exists|
        name: Option<Seq<char>>,
        birth_date: Option<Seq<char>>,
        cr: Option<i32>,
        status: Option<Option<Status>>,
        r: Result<bool, StudentError>,
    | #[trigger] StudentContract::updated(pre, post, id, name, birth_date, cr, status, r) {
        let (name, birth_date, cr, status, r) = choose|
            name: Option<Seq<char>>,
            birth_date: Option<Seq<char>>,
            cr: Option<i32>,
            status: Option<Option<Status>>,
            r: Result<bool, StudentError>,
        | #[trigger] StudentContract::updated(pre, post, id, name, birth_date, cr, status, r);
        assert(StudentContract::updated(pre, post, id, name, birth_date, cr, status, r));
    } else {
        let r = choose|r: bool| #[trigger] StudentContract::deleted(pre, post, id, r);
        assert(StudentContract::deleted(pre, post, id, r));
    }
}

proof fn lemma_run_prefix(states: Seq<StudentContract>, ids: Seq<u32>, keep: u32, n: int)
    requires
        run(states, ids),
        0 <= n < states.len(),
        keep < states[0].counter(),
        forall|i: int| 0 <= i < ids.len() ==> #[trigger] ids[i] != keep,
    ensures
        states[n].counter() >= states[0].counter(),
        states[n].lookup(keep) == states[0].lookup(keep),
    decreases n,
{
    if n > 0 {
        lemma_run_prefix(states, ids, keep, n - 1);
        let i = n - 1;
        assert(one_call(states[i], states[i + 1], ids[i]));
        assert(ids[n - 1] != keep);
        lemma_one_call_facts(states[n - 1], states[n], ids[n - 1]);
    }
}

/// Ids come out of successive successful calls of `create_student` in strictly
/// increasing order, whatever creates, updates and deletes run between them.
pub proof fn lemma_successive_creates_increase(
    s0: StudentContract,
    states: Seq<StudentContract>,
    ids: Seq<u32>,
    s_end: StudentContract,
    name1: Seq<char>,
    birth_date1: Seq<char>,
    cr1: Option<i32>,
    status1: Option<Status>,
    id1: u32,
    name2: Seq<char>,
    birth_date2: Seq<char>,
    cr2: Option<i32>,
    status2: Option<Status>,
    id2: u32,
)
    requires
        StudentContract::created(s0, states[0], name1, birth_date1, cr1, status1, Ok(id1)),
        run(states, ids),
        StudentContract::created(states.last(), s_end, name2, birth_date2, cr2, status2, Ok(id2)),
    ensures
        id1 < id2,
{
    lemma_run_counter(states, ids, states.len() - 1);
}

proof fn lemma_run_counter(states: Seq<StudentContract>, ids: Seq<u32>, n: int)
    requires
        run(states, ids),
        0 <= n < states.len(),
    ensures
        states[n].counter() >= states[0].counter(),
    decreases n,
{
    if n > 0 {
        lemma_run_counter(states, ids, n - 1);
        let i = n - 1;
        assert(one_call(states[i], states[i + 1], ids[i]));
        lemma_one_call_facts(states[n - 1], states[n], ids[n - 1]);
    }
}

/// After `create_student` returns `id`, the record under `id` holds exactly the
/// fields that were given, whatever creates, and updates and deletes of other
/// ids, run after it.
pub proof fn lemma_get_after_create(
    s0: StudentContract,
    states: Seq<StudentContract>,
    ids: Seq<u32>,
    name: Seq<char>,
    birth_date: Seq<char>,
    cr: Option<i32>,
    status: Option<Status>,
    id: u32,
)
    requires
        StudentContract::created(s0, states[0], name, birth_date, cr, status, Ok(id)),
        run(states, ids),
        forall|i: int| 0 <= i < ids.len() ==> #[trigger] ids[i] != id,
    ensures
        states.last().lookup(id) == Some(record_of(id, name, birth_date, cr, status)),
{
    lemma_run_prefix(states, ids, id, states.len() - 1);
}

/// An update that supplies no field changes nothing and returns true where the
/// record exists.
pub proof fn lemma_empty_update_is_no_op(
    pre: StudentContract,
    post: StudentContract,
    id: u32,
    r: Result<bool, StudentError>,
)
    requires
        pre.records().contains_key(id),
        StudentContract::updated(pre, post, id, None, None, None, None, r),
    ensures
        r == Ok::<bool, StudentError>(true),
        post.records() == pre.records(),
        post.counter() == pre.counter(),
{
    assert(post.records() =~= pre.records());
}

/// An update of an id without a record returns false and changes neither the
/// counter nor any record.
pub proof fn lemma_update_missing_is_no_op(
    pre: StudentContract,
    post: StudentContract,
    id: u32,
    name: Option<Seq<char>>,
    birth_date: Option<Seq<char>>,
    cr: Option<i32>,
    status: Option<Option<Status>>,
    r: Result<bool, StudentError>,
)
    requires
        !pre.records().contains_key(id),
        StudentContract::updated(pre, post, id, name, birth_date, cr, status, r),
    ensures
        r == Ok::<bool, StudentError>(false),
        post.records() == pre.records(),
        post.counter() == pre.counter(),
{
}

/// After `delete_student(id)` nothing is found under `id`, and deleting it
/// again returns false.
pub proof fn lemma_delete_is_final(
    s0: StudentContract,
    s1: StudentContract,
    s2: StudentContract,
    id: u32,
    r1: bool,
    r2: bool,
)
    requires
        StudentContract::deleted(s0, s1, id, r1),
        StudentContract::deleted(s1, s2, id, r2),
    ensures
        s1.lookup(id) is None,
        !r2,
{
}

proof fn lemma_listing_shape(m: Map<u32, StudentView>, hi: nat)
    requires
        hi <= u32::MAX as nat + 1,
        forall|k: u32| #[trigger] m.contains_key(k) ==> m[k].id == k,
    ensures
        forall|i: int|
            0 <= i < listing(m, hi).len() ==> {
                let s = #[trigger] listing(m, hi)[i];
                &&& 1 <= s.id < hi
                &&& m.contains_key(s.id)
                &&& m[s.id] == s
            },
        forall|i: int, j: int|
            0 <= i < j < listing(m, hi).len() ==> #[trigger] listing(m, hi)[i].id
                < #[trigger] listing(m, hi)[j].id,
        forall|k: u32| #[trigger]
            m.contains_key(k) && 1 <= k < hi ==> listing(m, hi).contains(m[k]),
    decreases hi,
{
    if hi > 1 {
        let h1 = (hi - 1) as nat;
        lemma_listing_shape(m, h1);
        let rest = listing(m, h1);
        let k = h1 as u32;
        if m.contains_key(k) {
            let l = listing(m, hi);
            assert(l == rest.push(m[k]));
            assert forall|k2: u32| #[trigger] m.contains_key(k2) && 1 <= k2 < hi implies l.contains(
                m[k2],
            ) by {
                if k2 == k {
                    assert(l[rest.len() as int] == m[k2]);
                } else {
                    let i = choose|i: int| 0 <= i < rest.len() && rest[i] == m[k2];
                    assert(l[i] == m[k2]);
                }
            }
        }
    }
}

/// `get_all_students` lists every record exactly once, in strictly ascending
/// id order, each as it is stored under its id.
pub proof fn lemma_listing_ascending_and_complete(reg: StudentContract)
    requires
        reg.wf(),
    ensures
        forall|i: int, j: int|
            0 <= i < j < listing(reg.records(), reg.counter() as nat).len() ==> #[trigger] listing(
                reg.records(),
                reg.counter() as nat,
            )[i].id < #[trigger] listing(reg.records(), reg.counter() as nat)[j].id,
        forall|i: int|
            0 <= i < listing(reg.records(), reg.counter() as nat).len() ==> {
                let s = #[trigger] listing(reg.records(), reg.counter() as nat)[i];
                reg.lookup(s.id) == Some(s)
            },
        forall|k: u32| #[trigger]
            reg.records().contains_key(k) ==> listing(reg.records(), reg.counter() as nat).contains(
                reg.records()[k],
            ),
{
    lemma_listing_shape(reg.records(), reg.counter() as nat);
}

} // verus!
