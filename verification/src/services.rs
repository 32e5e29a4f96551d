//! What the read-only use cases hand to the command line (or another front
//! end): the records they loaded, without any terminal output.

use vstd::prelude::*;
use crate::models::{ChecklistItem, ItineraryItem, Note, NoteOwnerType, Trip};
use crate::travel_book::TripStats;

verus! {

/// The checklist items of one trip, in checklist order.
pub struct ChecklistListServiceResult {
    pub items: Vec<ChecklistItem>,
}

/// The itinerary items of one trip, by day and then by order.
pub struct ItineraryListServiceResult {
    pub items: Vec<ItineraryItem>,
}

/// One itinerary item.
pub struct ItineraryShowServiceResult {
    pub item: ItineraryItem,
}

/// The notes of one owner, with the owner they were listed for.
pub struct NoteListServiceResult {
    pub owner_type: NoteOwnerType,
    pub owner_id: i64,
    pub notes: Vec<Note>,
}

/// All trips, by id.
pub struct TripListServiceResult {
    pub trips: Vec<Trip>,
}

/// One trip.
pub struct TripShowServiceResult {
    pub trip: Trip,
}

/// The statistics of one trip.
pub struct TripStatsServiceResult {
    pub stats: TripStats,
}

} // verus!
