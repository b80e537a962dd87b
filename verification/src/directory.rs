use vstd::prelude::*;

use crate::ledger::Ledger;
use crate::ledger::first_draw_by_giver_from;
use crate::models::AccessCode;
use crate::models::AccessCodeWithDraw;
use crate::models::CreateAccessCode;
use crate::models::Draw;

verus! {

/// Failures of the participant registry.
#[derive(Debug, Clone, Copy, PartialEq, Eq, Structural)]
pub enum RegistryError {
    /// Another record already holds the same secret code.
    DuplicateCode,
    /// No record has the requested id.
    NotFound,
}

/// Mathematical model of the participant registry: the records in insertion
/// order, and the id the store will hand out next.
pub struct DirectoryView {
    pub codes: Seq<AccessCode>,
    pub next_id: i64,
}

/// The position, at or after `i`, of the first record whose id is `id`,
/// if any.
pub open spec fn idx_with_id_from(codes: Seq<AccessCode>, id: i64, i: int) -> Option<int>
    decreases codes.len() - i,
{
    if i < 0 || i >= codes.len() {
        None
    } else if codes[i].id == id {
        Some(i)
    } else {
        idx_with_id_from(codes, id, i + 1)
    }
}

/// The first record at or after position `i` whose id is `id`, if any.
pub open spec fn first_with_id_from(codes: Seq<AccessCode>, id: i64, i: int) -> Option<AccessCode> {
    match idx_with_id_from(codes, id, i) {
        Some(j) => Some(codes[j]),
        None => None,
    }
}

/// The first active record at or after position `i` whose secret code reads
/// `code`, if any.
pub open spec fn first_active_with_code_from(
    codes: Seq<AccessCode>,
    code: Seq<char>,
    i: int,
) -> Option<AccessCode>
    decreases codes.len() - i,
{
    if i < 0 || i >= codes.len() {
        None
    } else if codes[i].active && codes[i].code@ == code {
        Some(codes[i])
    } else {
        first_active_with_code_from(codes, code, i + 1)
    }
}

/// Whether some record already holds the secret code `code`, active or not.
pub open spec fn code_taken(codes: Seq<AccessCode>, code: Seq<char>) -> bool {
    exists|k: int| 0 <= k < codes.len() && (#[trigger] codes[k]).code@ == code
}

/// Whether the record with id `id` exists and is active.
pub open spec fn spec_is_active(codes: Seq<AccessCode>, id: i64) -> bool {
    match first_with_id_from(codes, id, 0) {
        Some(c) => c.active,
        None => false,
    }
}

/// Well-formedness of the registry: ids are unique and below `next_id`, and
/// secret codes are unique among all records, active or not.
pub open spec fn directory_wf(d: DirectoryView) -> bool {
    &&& 1 <= d.next_id
    &&& forall|i: int| 0 <= i < d.codes.len() ==> 1 <= (#[trigger] d.codes[i]).id < d.next_id
    &&& forall|i: int, j: int|
        #![trigger d.codes[i], d.codes[j]]
        0 <= i < j < d.codes.len() ==> {
            &&& d.codes[i].id != d.codes[j].id
            &&& d.codes[i].code@ != d.codes[j].code@
        }
}

/// A record of the admin join view: the given record, joined with the first
/// draw in which it is the giver.
pub open spec fn join_row(c: AccessCode, draws: Seq<Draw>) -> AccessCodeWithDraw {
    match first_draw_by_giver_from(draws, c.id, 0) {
        Some(d) => AccessCodeWithDraw {
            id: c.id,
            name: c.name,
            code: c.code,
            active: c.active,
            drawn: true,
            receiver_id: Some(d.receiver_id),
            year: Some(d.year),
        },
        None => AccessCodeWithDraw {
            id: c.id,
            name: c.name,
            code: c.code,
            active: c.active,
            drawn: false,
            receiver_id: None,
            year: None,
        },
    }
}

/// The participant registry, consulted read-only by the draw engine and
/// maintained by the administrative screens.
pub struct Directory {
    pub codes: Vec<AccessCode>,
    pub next_id: i64,
}

impl View for Directory {
    type V = DirectoryView;

    open spec fn view(&self) -> DirectoryView {
        DirectoryView { codes: self.codes@, next_id: self.next_id }
    }
}

impl Directory {
    pub open spec fn wf(&self) -> bool {
        directory_wf(self@)
    }

    /// An empty registry whose first record will get id 1.
    pub fn new() -> (r: Directory)
        ensures
            r@.codes == Seq::<AccessCode>::empty(),
            r@.next_id == 1,
            r.wf(),
    {
        Directory { codes: Vec::new(), next_id: 1 }
    }

    /// All records, in insertion order.
    pub fn records(&self) -> (r: &Vec<AccessCode>)
        ensures
            r@ == self@.codes,
    {
        &self.codes
    }

    /// The active record holding the given secret code, if any: the lookup a
    /// login performs.
    pub fn find_active_by_code(&self, code: &str) -> (r: Option<AccessCode>)
        ensures
            r == first_active_with_code_from(self@.codes, code@, 0),
    {
        let wanted: String = code.to_owned();
        let mut i: usize = 0;
        while i < self.codes.len()
            invariant
                0 <= i <= self.codes.len(),
                wanted@ == code@,
                first_active_with_code_from(self@.codes, code@, 0) == first_active_with_code_from(
                    self@.codes,
                    code@,
                    i as int,
                ),
            decreases self.codes.len() - i,
        {
            let c = &self.codes[i];
            if c.active && c.code == wanted {
                return Some(c.clone());
            }
            i = i + 1;
        }
        None
    }

    /// The record with the given id, if any.
    pub fn find_by_id(&self, id: i64) -> (r: Option<AccessCode>)
        ensures
            r == first_with_id_from(self@.codes, id, 0),
    {
        let mut i: usize = 0;
        while i < self.codes.len()
            invariant
                0 <= i <= self.codes.len(),
                idx_with_id_from(self@.codes, id, 0) == idx_with_id_from(
                    self@.codes,
                    id,
                    i as int,
                ),
            decreases self.codes.len() - i,
        {
            let c = &self.codes[i];
            if c.id == id {
                return Some(c.clone());
            }
            i = i + 1;
        }
        None
    }

    /// Whether the record with id `id` exists and is active.
    pub fn is_active(&self, id: i64) -> (r: bool)
        ensures
            r == spec_is_active(self@.codes, id),
    {
        match self.find_by_id(id) {
            Some(c) => c.active,
            None => false,
        }
    }

    /// The position of the record with the given id, if any.
    fn index_of_id(&self, id: i64) -> (r: Option<usize>)
        ensures
            match r {
                Some(u) => idx_with_id_from(self@.codes, id, 0) == Some(u as int),
                None => idx_with_id_from(self@.codes, id, 0) is None,
            },
    {
        let mut i: usize = 0;
        while i < self.codes.len()
            invariant
                0 <= i <= self.codes.len(),
                idx_with_id_from(self@.codes, id, 0) == idx_with_id_from(
                    self@.codes,
                    id,
                    i as int,
                ),
            decreases self.codes.len() - i,
        {
            if self.codes[i].id == id {
                return Some(i);
            }
            i = i + 1;
        }
        None
    }

    /// Whether some record, at a position other than `skip` when `skip` is
    /// in range, holds the secret code `code`.
    fn code_held_elsewhere(&self, code: &String, skip: Option<usize>) -> (r: bool)
        ensures
            ({
                let s = (match skip {
                    Some(u) => u as int,
                    None => -1,
                });
                r == exists|k: int|
                    0 <= k < self@.codes.len() && k != s && (#[trigger] self@.codes[k]).code@
                        == code@
            }),
    {
        let ghost s: int = (match skip {
            Some(u) => u as int,
            None => -1,
        });
        let mut i: usize = 0;
        while i < self.codes.len()
            invariant
                0 <= i <= self.codes.len(),
                s == (match skip {
                    Some(u) => u as int,
                    None => -1,
                }),
                forall|k: int|
                    0 <= k < i ==> !(k != s && (#[trigger] self@.codes[k]).code@ == code@),
            decreases self.codes.len() - i,
        {
            let skipped = (match skip {
                Some(u) => u == i,
                None => false,
            });
            if !skipped && self.codes[i].code == *code {
                assert(i as int != s && self@.codes[i as int].code@ == code@);
                return true;
            }
            i = i + 1;
        }
        false
    }

    /// Creates a participant record, assigning it the next id, and returns
    /// the stored record. Fails, leaving the registry unchanged, exactly
    /// when another record already holds the same secret code.
    pub fn create_access_code(&mut self, req: &CreateAccessCode) -> (r: Result<
        AccessCode,
        RegistryError,
    >)
        requires
            old(self).wf(),
            old(self).next_id < i64::MAX,
        ensures
            final(self).wf(),
            code_taken(old(self)@.codes, req.code@) ==> r == Err::<AccessCode, RegistryError>(
                RegistryError::DuplicateCode,
            ) && *final(self) == *old(self),
            !code_taken(old(self)@.codes, req.code@) ==> ({
                let created = (AccessCode {
                    id: old(self)@.next_id,
                    name: req.name,
                    code: req.code,
                    active: req.active,
                });
                &&& r == Ok::<AccessCode, RegistryError>(created)
                &&& final(self)@.codes == old(self)@.codes.push(created)
                &&& final(self)@.next_id == old(self)@.next_id + 1
            }),
    {
        if self.code_held_elsewhere(&req.code, None) {
            return Err(RegistryError::DuplicateCode);
        }
        let created = AccessCode {
            id: self.next_id,
            name: req.name.clone(),
            code: req.code.clone(),
            active: req.active,
        };
        self.codes.push(created.clone());
        self.next_id = self.next_id + 1;
        proof {
            let oldc = old(self)@.codes;
            let newc = self@.codes;
            assert forall|i: int| 0 <= i < newc.len() implies 1 <= (#[trigger] newc[i]).id
                < self@.next_id by {
                if i < oldc.len() {
                    assert(newc[i] == oldc[i]);
                }
            };
            assert forall|i: int, j: int|
                #![trigger newc[i], newc[j]]
                0 <= i < j < newc.len() implies newc[i].id != newc[j].id && newc[i].code@
                != newc[j].code@ by {
                if j < oldc.len() {
                    assert(newc[i] == oldc[i] && newc[j] == oldc[j]);
                } else {
                    assert(newc[i] == oldc[i]);
                    assert(newc[j] == created);
                    assert(!(oldc[i].code@ == created.code@));
                }
            };
        }
        Ok(created)
    }

    /// Rewrites the name, secret code and active flag of the record with the
    /// given id, keeping its id. Fails, leaving the registry unchanged, when
    /// no record has that id, or when a different record already holds the
    /// new secret code.
    pub fn update_access_code(&mut self, id: i64, code: &AccessCode) -> (r: Result<
        (),
        RegistryError,
    >)
        requires
            old(self).wf(),
        ensures
            final(self).wf(),
            idx_with_id_from(old(self)@.codes, id, 0) is None ==> r == Err::<(), RegistryError>(
                RegistryError::NotFound,
            ) && *final(self) == *old(self),
            ({
                match idx_with_id_from(old(self)@.codes, id, 0) {
                    None => true,
                    Some(j) => {
                        let clash = exists|k: int|
                            0 <= k < old(self)@.codes.len() && k != j && (
                            #[trigger] old(self)@.codes[k]).code@ == code.code@;
                        let updated = (AccessCode {
                            id: id,
                            name: code.name,
                            code: code.code,
                            active: code.active,
                        });
                        &&& clash ==> r == Err::<(), RegistryError>(RegistryError::DuplicateCode)
                            && *final(self) == *old(self)
                        &&& !clash ==> r == Ok::<(), RegistryError>(()) && final(self)@.codes
                            == old(self)@.codes.update(j, updated) && final(self)@.next_id == old(
                            self,
                        )@.next_id
                    },
                }
            }),
    {
        let j = match self.index_of_id(id) {
            Some(j) => j,
            None => {
                return Err(RegistryError::NotFound);
            },
        };
        if self.code_held_elsewhere(&code.code, Some(j)) {
            return Err(RegistryError::DuplicateCode);
        }
        proof {
            lemma_idx_with_id_in_range(self@.codes, id, 0);
        }
        let updated = AccessCode {
            id: id,
            name: code.name.clone(),
            code: code.code.clone(),
            active: code.active,
        };
        self.codes[j] = updated;
        Ok(())
    }

    /// Removes the record with the given id. Fails, leaving the registry
    /// unchanged, exactly when no record has that id.
    pub fn delete_access_code(&mut self, id: i64) -> (r: Result<(), RegistryError>)
        requires
            old(self).wf(),
        ensures
            final(self).wf(),
            idx_with_id_from(old(self)@.codes, id, 0) is None ==> r == Err::<(), RegistryError>(
                RegistryError::NotFound,
            ) && *final(self) == *old(self),
            ({
                match idx_with_id_from(old(self)@.codes, id, 0) {
                    None => true,
                    Some(j) => r == Ok::<(), RegistryError>(()) && final(self)@.codes == old(
                        self,
                    )@.codes.remove(j) && final(self)@.next_id == old(self)@.next_id,
                }
            }),
    {
        let j = match self.index_of_id(id) {
            Some(j) => j,
            None => {
                return Err(RegistryError::NotFound);
            },
        };
        proof {
            lemma_idx_with_id_in_range(self@.codes, id, 0);
        }
        self.codes.remove(j);
        Ok(())
    }

    /// The admin listing: every record, each joined with the first draw in
    /// which it is the giver.
    pub fn list_access_codes(&self, ledger: &Ledger) -> (r: Vec<AccessCodeWithDraw>)
        ensures
            r@.len() == self@.codes.len(),
            forall|i: int|
                0 <= i < r@.len() ==> r@[i] == join_row(self@.codes[i], ledger@.draws),
    {
        let mut out: Vec<AccessCodeWithDraw> = Vec::new();
        let mut i: usize = 0;
        while i < self.codes.len()
            invariant
                0 <= i <= self.codes.len(),
                out@.len() == i,
                forall|k: int|
                    0 <= k < i ==> out@[k] == join_row(self@.codes[k], ledger@.draws),
            decreases self.codes.len() - i,
        {
            let c = &self.codes[i];
            let row = match ledger.first_draw_by_giver(c.id) {
                Some(d) => AccessCodeWithDraw {
                    id: c.id,
                    name: c.name.clone(),
                    code: c.code.clone(),
                    active: c.active,
                    drawn: true,
                    receiver_id: Some(d.receiver_id),
                    year: Some(d.year),
                },
                None => AccessCodeWithDraw {
                    id: c.id,
                    name: c.name.clone(),
                    code: c.code.clone(),
                    active: c.active,
                    drawn: false,
                    receiver_id: None,
                    year: None,
                },
            };
            out.push(row);
            i = i + 1;
        }
        out
    }
}

/// A found index is within the record sequence, and the record there has the
/// id that was looked up.
pub proof fn lemma_idx_with_id_in_range(codes: Seq<AccessCode>, id: i64, i: int)
    requires
        0 <= i,
        idx_with_id_from(codes, id, i) is Some,
    ensures
        i <= idx_with_id_from(codes, id, i).unwrap() < codes.len(),
        codes[idx_with_id_from(codes, id, i).unwrap()].id == id,
    decreases codes.len() - i,
{
    if i < codes.len() && codes[i].id != id {
        lemma_idx_with_id_in_range(codes, id, i + 1);
    }
}

} // verus!
