//! The closed set of event categories a transaction can record.

use vstd::prelude::*;

verus! {

/// Every kind of event that can be recorded on the network.
#[derive(Debug, Clone, Copy, PartialEq, Eq, Hash, Structural)]
pub enum TransactionType {
    // User lifecycle
    UserRegistered,
    UserEdited,
    UserUnregistered,
    // Organisation lifecycle
    OrgRegistered,
    OrgEdited,
    OrgUnregistered,
    // Project lifecycle
    ProjectPosted,
    ProjectEdited,
    ProjectStatusChanged,
    // Project updates
    ProjectUpdateAdded,
    ProjectUpdateEdited,
    ProjectUpdateDeleted,
    // Collective funding
    FundingCreated,
    FundingFunded,
    FundingDistributed,
    // Posts
    PostCreated,
    PostUpdated,
    PostDeleted,
    // Comments
    CommentAdded,
    // Events
    EventAdded,
    EventEdited,
    EventCancelled,
    // RSVP and voting
    RsvpChanged,
    VoteCast,
    // Network topology
    NodeAdded,
    NodeRemoved,
}

/// Number of transaction kinds; wire tags run from zero to one below it.
pub const KIND_COUNT: u32 = 26;

impl TransactionType {
    /// The position of the kind in the enumeration, which is its wire tag.
    pub open spec fn tag_spec(self) -> u32 {
        match self {
            TransactionType::UserRegistered => 0,
            TransactionType::UserEdited => 1,
            TransactionType::UserUnregistered => 2,
            TransactionType::OrgRegistered => 3,
            TransactionType::OrgEdited => 4,
            TransactionType::OrgUnregistered => 5,
            TransactionType::ProjectPosted => 6,
            TransactionType::ProjectEdited => 7,
            TransactionType::ProjectStatusChanged => 8,
            TransactionType::ProjectUpdateAdded => 9,
            TransactionType::ProjectUpdateEdited => 10,
            TransactionType::ProjectUpdateDeleted => 11,
            TransactionType::FundingCreated => 12,
            TransactionType::FundingFunded => 13,
            TransactionType::FundingDistributed => 14,
            TransactionType::PostCreated => 15,
            TransactionType::PostUpdated => 16,
            TransactionType::PostDeleted => 17,
            TransactionType::CommentAdded => 18,
            TransactionType::EventAdded => 19,
            TransactionType::EventEdited => 20,
            TransactionType::EventCancelled => 21,
            TransactionType::RsvpChanged => 22,
            TransactionType::VoteCast => 23,
            TransactionType::NodeAdded => 24,
            TransactionType::NodeRemoved => 25,
        }
    }

    /// The kind that carries the given wire tag, if any.
    pub open spec fn from_tag_spec(tag: u32) -> Option<TransactionType> {
        if tag == 0 {
            Some(TransactionType::UserRegistered)
        } else if tag == 1 {
            Some(TransactionType::UserEdited)
        } else if tag == 2 {
            Some(TransactionType::UserUnregistered)
        } else if tag == 3 {
            Some(TransactionType::OrgRegistered)
        } else if tag == 4 {
            Some(TransactionType::OrgEdited)
        } else if tag == 5 {
            Some(TransactionType::OrgUnregistered)
        } else if tag == 6 {
            Some(TransactionType::ProjectPosted)
        } else if tag == 7 {
            Some(TransactionType::ProjectEdited)
        } else if tag == 8 {
            Some(TransactionType::ProjectStatusChanged)
        } else if tag == 9 {
            Some(TransactionType::ProjectUpdateAdded)
        } else if tag == 10 {
            Some(TransactionType::ProjectUpdateEdited)
        } else if tag == 11 {
            Some(TransactionType::ProjectUpdateDeleted)
        } else if tag == 12 {
            Some(TransactionType::FundingCreated)
        } else if tag == 13 {
            Some(TransactionType::FundingFunded)
        } else if tag == 14 {
            Some(TransactionType::FundingDistributed)
        } else if tag == 15 {
            Some(TransactionType::PostCreated)
        } else if tag == 16 {
            Some(TransactionType::PostUpdated)
        } else if tag == 17 {
            Some(TransactionType::PostDeleted)
        } else if tag == 18 {
            Some(TransactionType::CommentAdded)
        } else if tag == 19 {
            Some(TransactionType::EventAdded)
        } else if tag == 20 {
            Some(TransactionType::EventEdited)
        } else if tag == 21 {
            Some(TransactionType::EventCancelled)
        } else if tag == 22 {
            Some(TransactionType::RsvpChanged)
        } else if tag == 23 {
            Some(TransactionType::VoteCast)
        } else if tag == 24 {
            Some(TransactionType::NodeAdded)
        } else if tag == 25 {
            Some(TransactionType::NodeRemoved)
        } else {
            None
        }
    }

    /// Tags are below [`KIND_COUNT`] and identify their kind.
    pub proof fn lemma_tag_roundtrip(self)
        ensures
            self.tag_spec() < KIND_COUNT,
            Self::from_tag_spec(self.tag_spec()) == Some(self),
    {
    }

    /// A tag that names a kind is that kind's tag.
    pub proof fn lemma_from_tag_inverse(tag: u32)
        ensures
            Self::from_tag_spec(tag) matches Some(kind) ==> kind.tag_spec() == tag,
            Self::from_tag_spec(tag) is Some <==> tag < KIND_COUNT,
    {
    }

    /// The wire tag of this kind.
    pub fn tag(&self) -> (tag: u32)
        ensures
            tag == self.tag_spec(),
    {
        match self {
            TransactionType::UserRegistered => 0,
            TransactionType::UserEdited => 1,
            TransactionType::UserUnregistered => 2,
            TransactionType::OrgRegistered => 3,
            TransactionType::OrgEdited => 4,
            TransactionType::OrgUnregistered => 5,
            TransactionType::ProjectPosted => 6,
            TransactionType::ProjectEdited => 7,
            TransactionType::ProjectStatusChanged => 8,
            TransactionType::ProjectUpdateAdded => 9,
            TransactionType::ProjectUpdateEdited => 10,
            TransactionType::ProjectUpdateDeleted => 11,
            TransactionType::FundingCreated => 12,
            TransactionType::FundingFunded => 13,
            TransactionType::FundingDistributed => 14,
            TransactionType::PostCreated => 15,
            TransactionType::PostUpdated => 16,
            TransactionType::PostDeleted => 17,
            TransactionType::CommentAdded => 18,
            TransactionType::EventAdded => 19,
            TransactionType::EventEdited => 20,
            TransactionType::EventCancelled => 21,
            TransactionType::RsvpChanged => 22,
            TransactionType::VoteCast => 23,
            TransactionType::NodeAdded => 24,
            TransactionType::NodeRemoved => 25,
        }
    }

    /// The kind with the given wire tag; `None` for a tag out of range.
    pub fn from_tag(tag: u32) -> (kind: Option<TransactionType>)
        ensures
            kind == Self::from_tag_spec(tag),
    {
        match tag {
            0 => Some(TransactionType::UserRegistered),
            1 => Some(TransactionType::UserEdited),
            2 => Some(TransactionType::UserUnregistered),
            3 => Some(TransactionType::OrgRegistered),
            4 => Some(TransactionType::OrgEdited),
            5 => Some(TransactionType::OrgUnregistered),
            6 => Some(TransactionType::ProjectPosted),
            7 => Some(TransactionType::ProjectEdited),
            8 => Some(TransactionType::ProjectStatusChanged),
            9 => Some(TransactionType::ProjectUpdateAdded),
            10 => Some(TransactionType::ProjectUpdateEdited),
            11 => Some(TransactionType::ProjectUpdateDeleted),
            12 => Some(TransactionType::FundingCreated),
            13 => Some(TransactionType::FundingFunded),
            14 => Some(TransactionType::FundingDistributed),
            15 => Some(TransactionType::PostCreated),
            16 => Some(TransactionType::PostUpdated),
            17 => Some(TransactionType::PostDeleted),
            18 => Some(TransactionType::CommentAdded),
            19 => Some(TransactionType::EventAdded),
            20 => Some(TransactionType::EventEdited),
            21 => Some(TransactionType::EventCancelled),
            22 => Some(TransactionType::RsvpChanged),
            23 => Some(TransactionType::VoteCast),
            24 => Some(TransactionType::NodeAdded),
            25 => Some(TransactionType::NodeRemoved),
            _ => None,
        }
    }
}

} // verus!
