use vstd::prelude::*;

verus! {

/// A participant record. A person is identified by a secret `code`, unique
/// among all records whether active or not; only active participants may log
/// in, give, or receive.
#[derive(Debug)]
pub struct AccessCode {
    pub id: i64,
    pub name: String,
    pub code: String,
    pub active: bool,
}

impl Clone for AccessCode {
    fn clone(&self) -> (r: Self)
        ensures
            r == *self,
    {
        AccessCode {
            id: self.id,
            name: self.name.clone(),
            code: self.code.clone(),
            active: self.active,
        }
    }
}

/// A ledger entry: participant `giver_id` gives a gift to participant
/// `receiver_id` during the yearly period `year`.
#[derive(Debug)]
pub struct Draw {
    pub id: i64,
    pub giver_id: i64,
    pub receiver_id: i64,
    pub year: i32,
    pub created_at: String,
}

impl Clone for Draw {
    fn clone(&self) -> (r: Self)
        ensures
            r == *self,
    {
        Draw {
            id: self.id,
            giver_id: self.giver_id,
            receiver_id: self.receiver_id,
            year: self.year,
            created_at: self.created_at.clone(),
        }
    }
}

/// Payload for creating a participant record.
#[derive(Debug)]
pub struct CreateAccessCode {
    pub name: String,
    pub code: String,
    pub active: bool,
}

/// A participant record joined with the first draw, if any, in which the
/// participant is the giver.
#[derive(Debug)]
pub struct AccessCodeWithDraw {
    pub id: i64,
    pub name: String,
    pub code: String,
    pub active: bool,
    pub drawn: bool,
    pub receiver_id: Option<i64>,
    pub year: Option<i32>,
}

/// Login form payload: the shared secret code typed by a visitor.
#[derive(Debug)]
pub struct LoginForm {
    pub password: String,
}

/// Draw request payload: the participant who asks for a recipient.
#[derive(Debug)]
pub struct DrawRequest {
    pub user_id: i64,
}

/// Outcome shown to a giver: the chosen recipient and its display name.
#[derive(Debug)]
pub struct DrawResult {
    pub assigned_id: i64,
    pub assigned_name: String,
}

impl Clone for DrawResult {
    fn clone(&self) -> (r: Self)
        ensures
            r == *self,
    {
        DrawResult { assigned_id: self.assigned_id, assigned_name: self.assigned_name.clone() }
    }
}

} // verus!
