use vstd::prelude::*;

verus! {

/// The failure kinds that the store reports to its callers.
#[derive(Clone, Copy, Debug, PartialEq, Eq, Structural)]
pub enum CoreError {
    /// A field value outside its allowed range.
    Validation,
    /// No record has the given identifier.
    NotFound,
    /// The store itself could not do the work (its identifier space is used up,
    /// an aggregate does not fit its type).
    StoreError,
    /// An input at the boundary could not be decoded.
    DecodeError,
}

#[derive(Clone, Copy, Debug, PartialEq, Eq, Structural)]
pub enum Priority {
    Low,
    Medium,
    High,
}

/// The priority that an integer rank stands for; unknown ranks mean `Medium`.
pub open spec fn priority_of_rank(rank: i64) -> Priority {
    if rank == 0 {
        Priority::Low
    } else if rank == 2 {
        Priority::High
    } else {
        Priority::Medium
    }
}

pub open spec fn rank_of_priority(p: Priority) -> i64 {
    match p {
        Priority::Low => 0,
        Priority::Medium => 1,
        Priority::High => 2,
    }
}

impl Priority {
    pub fn from_rank(rank: i64) -> (r: Priority)
        ensures
            r == priority_of_rank(rank),
    {
        if rank == 0 {
            Priority::Low
        } else if rank == 2 {
            Priority::High
        } else {
            Priority::Medium
        }
    }

    pub fn rank(&self) -> (r: i64)
        ensures
            r == rank_of_priority(*self),
    {
        match self {
            Priority::Low => 0,
            Priority::Medium => 1,
            Priority::High => 2,
        }
    }
}

/// A copy of an optional text that equals the original.
pub fn copy_text(s: &Option<String>) -> (r: Option<String>)
    ensures
        r == *s,
{
    match s {
        Some(t) => Some(t.clone()),
        None => None,
    }
}

/// An optional borrowed text, owned.
pub fn own_text(s: Option<&str>) -> (r: Option<String>)
    ensures
        r is Some <==> s is Some,
        r matches Some(t) ==> t@ == s->Some_0@,
{
    match s {
        Some(t) => Some(t.to_owned()),
        None => None,
    }
}

/// A stored record: something with a text identifier that can be copied.
pub trait Record: Sized {
    spec fn key(&self) -> Seq<char>;

    fn id_text(&self) -> (r: &String)
        ensures
            r@ == self.key(),
    ;

    fn duplicate(&self) -> (r: Self)
        ensures
            r == *self,
    ;
}

#[derive(Debug)]
pub struct Task {
    pub id: String,
    pub title: String,
    pub notes: Option<String>,
    /// Seconds since the epoch; `None` when the task has no due date.
    pub due_date: Option<i64>,
    pub priority: Priority,
    pub completed: bool,
    pub created_at: i64,
    pub updated_at: i64,
}

#[derive(Debug)]
pub struct Note {
    pub id: String,
    pub title: String,
    pub body: String,
    pub subject: Option<String>,
    pub created_at: i64,
    pub updated_at: i64,
}

/// Goal progress is carried as the bit pattern of an IEEE-754 binary64 value,
/// so that range and completion are decided exactly as float comparisons decide
/// them, with integers alone.
#[derive(Debug)]
pub struct Goal {
    pub id: String,
    pub title: String,
    pub description: Option<String>,
    pub target_date: Option<i64>,
    pub progress_bits: u64,
    pub completed: bool,
    pub created_at: i64,
    pub updated_at: i64,
}

#[derive(Debug)]
pub struct StudySession {
    pub id: String,
    pub subject: String,
    pub duration_secs: i64,
    pub notes: Option<String>,
    pub created_at: i64,
    pub updated_at: i64,
}

/// Bits of the binary64 value 1.0.
pub const PROGRESS_ONE_BITS: u64 = 0x3FF0_0000_0000_0000;

/// Bits of the binary64 value -0.0, which compares equal to 0.0.
pub const NEGATIVE_ZERO_BITS: u64 = 0x8000_0000_0000_0000;

/// Whether the binary64 value with these bits lies in `[0.0, 1.0]`: the
/// non-negative values are ordered as their bits are, 1.0 is the largest one
/// admitted, -0.0 equals 0.0, and every NaN and every other negative value is out.
pub open spec fn progress_in_range(bits: u64) -> bool {
    bits <= PROGRESS_ONE_BITS || bits == NEGATIVE_ZERO_BITS
}

/// Whether the binary64 value with these bits equals 1.0.
pub open spec fn progress_complete(bits: u64) -> bool {
    bits == PROGRESS_ONE_BITS
}

impl Record for Task {
    open spec fn key(&self) -> Seq<char> {
        self.id@
    }

    fn id_text(&self) -> (r: &String) {
        &self.id
    }

    fn duplicate(&self) -> (r: Self) {
        Task {
            id: self.id.clone(),
            title: self.title.clone(),
            notes: copy_text(&self.notes),
            due_date: self.due_date,
            priority: self.priority,
            completed: self.completed,
            created_at: self.created_at,
            updated_at: self.updated_at,
        }
    }
}

impl Record for Note {
    open spec fn key(&self) -> Seq<char> {
        self.id@
    }

    fn id_text(&self) -> (r: &String) {
        &self.id
    }

    fn duplicate(&self) -> (r: Self) {
        Note {
            id: self.id.clone(),
            title: self.title.clone(),
            body: self.body.clone(),
            subject: copy_text(&self.subject),
            created_at: self.created_at,
            updated_at: self.updated_at,
        }
    }
}

impl Record for Goal {
    open spec fn key(&self) -> Seq<char> {
        self.id@
    }

    fn id_text(&self) -> (r: &String) {
        &self.id
    }

    fn duplicate(&self) -> (r: Self) {
        Goal {
            id: self.id.clone(),
            title: self.title.clone(),
            description: copy_text(&self.description),
            target_date: self.target_date,
            progress_bits: self.progress_bits,
            completed: self.completed,
            created_at: self.created_at,
            updated_at: self.updated_at,
        }
    }
}

impl Record for StudySession {
    open spec fn key(&self) -> Seq<char> {
        self.id@
    }

    fn id_text(&self) -> (r: &String) {
        &self.id
    }

    fn duplicate(&self) -> (r: Self) {
        StudySession {
            id: self.id.clone(),
            subject: self.subject.clone(),
            duration_secs: self.duration_secs,
            notes: copy_text(&self.notes),
            created_at: self.created_at,
            updated_at: self.updated_at,
        }
    }
}

} // verus!
