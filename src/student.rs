//! The student record and its status.
use vstd::prelude::*;

verus! {

/// Where a student stands.
#[derive(Clone, Copy, Debug, PartialEq, Eq, Structural)]
pub enum Status {
    Active,
    Inactive,
    Graduated,
    Suspended,
}

/// One student record, as the registry stores and hands it out.
#[derive(Clone, Debug)]
pub struct Student {
    pub id: u32,
    pub name: String,
    pub birth_date: String,
    pub cr: Option<i32>,
    pub status: Option<Status>,
}

/// The mathematical value of a `Student`: its texts as character sequences.
pub struct StudentView {
    pub id: u32,
    pub name: Seq<char>,
    pub birth_date: Seq<char>,
    pub cr: Option<i32>,
    pub status: Option<Status>,
}

impl View for Student {
    type V = StudentView;

    open spec fn view(&self) -> StudentView {
        StudentView {
            id: self.id,
            name: self.name@,
            birth_date: self.birth_date@,
            cr: self.cr,
            status: self.status,
        }
    }
}

impl Student {
    /// A copy of this record, field by field.
    pub fn duplicate(&self) -> (r: Student)
        ensures
            r@ == self@,
    {
        Student {
            id: self.id,
            name: self.name.clone(),
            birth_date: self.birth_date.clone(),
            cr: self.cr,
            status: self.status,
        }
    }
}

} // verus!
