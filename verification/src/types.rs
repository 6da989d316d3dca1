//! The values the registry works on: identities, lifecycle stages, achievement
//! records and the errors an operation can end in.
use vstd::prelude::*;

verus! {

/// Identity of a principal, held as the text the hosting environment gives for it.
///
/// Two identities are the same principal exactly when their texts are equal.
#[derive(Debug, PartialEq, Eq)]
pub struct Address {
    pub text: String,
}

impl View for Address {
    type V = Seq<char>;

    open spec fn view(&self) -> Seq<char> {
        self.text@
    }
}

impl Clone for Address {
    fn clone(&self) -> (r: Self)
        ensures
            r == *self,
    {
        Address { text: self.text.clone() }
    }
}

impl Address {
    /// The identity written as `text`.
    pub fn from_str(text: &str) -> (r: Address)
        ensures
            r@ == text@,
    {
        Address { text: text.to_owned() }
    }

    /// Whether `self` and `other` name the same principal.
    pub fn same(&self, other: &Address) -> (r: bool)
        ensures
            r == (self@ == other@),
    {
        self.text == other.text
    }
}

/// Stage of an achievement record: it starts as a draft, its owner mints it,
/// and a whitelisted verifier verifies it.
#[derive(Clone, Copy, Debug, PartialEq, Eq, Structural)]
pub enum Status {
    Draft,
    Minted,
    Verified,
}

impl Status {
    /// Position of the stage in the lifecycle: draft, then minted, then verified.
    pub open spec fn rank(self) -> nat {
        match self {
            Status::Draft => 0,
            Status::Minted => 1,
            Status::Verified => 2,
        }
    }

    /// The lower-case name of the stage.
    pub open spec fn name(self) -> Seq<char> {
        match self {
            Status::Draft => "draft"@,
            Status::Minted => "minted"@,
            Status::Verified => "verified"@,
        }
    }

    /// The stage that `text` names, if it names one.
    pub fn parse(text: &str) -> (r: Option<Status>)
        ensures
            match r {
                Some(status) => text@ == status.name(),
                None => text@ != Status::Draft.name() && text@ != Status::Minted.name() && text@
                    != Status::Verified.name(),
            },
    {
        let given = text.to_owned();
        if given == Status::Draft.as_str().to_owned() {
            Some(Status::Draft)
        } else if given == Status::Minted.as_str().to_owned() {
            Some(Status::Minted)
        } else if given == Status::Verified.as_str().to_owned() {
            Some(Status::Verified)
        } else {
            None
        }
    }

    /// The lower-case name of the stage: `"draft"`, `"minted"` or `"verified"`.
    pub fn as_str(&self) -> (r: &'static str)
        ensures
            r@ == self.name(),
    {
        match self {
            Status::Draft => "draft",
            Status::Minted => "minted",
            Status::Verified => "verified",
        }
    }
}

/// What an operation of the registry can fail with.
#[derive(Clone, Copy, Debug, PartialEq, Eq, Structural)]
pub enum Error {
    /// The administrator has already been set.
    AlreadyInitialized,
    /// The authenticated caller does not hold the role the operation asks for.
    Unauthorized,
    /// No record is stored under the identifier.
    NotFound,
    /// The record's stage does not allow the operation.
    InvalidState,
    /// A slot of the store holds a value of a kind that its key does not call for.
    StoreCorruption,
}

/// A claim of accomplishment submitted by its owner.
#[derive(Debug, PartialEq, Eq)]
pub struct Achievement {
    pub id: u64,
    pub owner: Address,
    pub title: String,
    pub description: String,
    pub category: String,
    pub evidence_uri: String,
    pub timestamp: u64,
    pub status: Status,
}

/// An achievement record as a mathematical value.
pub struct AchievementView {
    pub id: u64,
    pub owner: Seq<char>,
    pub title: Seq<char>,
    pub description: Seq<char>,
    pub category: Seq<char>,
    pub evidence_uri: Seq<char>,
    pub timestamp: u64,
    pub status: Status,
}

impl View for Achievement {
    type V = AchievementView;

    open spec fn view(&self) -> AchievementView {
        AchievementView {
            id: self.id,
            owner: self.owner@,
            title: self.title@,
            description: self.description@,
            category: self.category@,
            evidence_uri: self.evidence_uri@,
            timestamp: self.timestamp,
            status: self.status,
        }
    }
}

impl Clone for Achievement {
    fn clone(&self) -> (r: Self)
        ensures
            r == *self,
    {
        Achievement {
            id: self.id,
            owner: self.owner.clone(),
            title: self.title.clone(),
            description: self.description.clone(),
            category: self.category.clone(),
            evidence_uri: self.evidence_uri.clone(),
            timestamp: self.timestamp,
            status: self.status,
        }
    }
}

} // verus!
