//! Tracks, groups and objects; subscription filters; priority scheduling;
//! namespace discovery; retention.

pub mod codec;
pub mod fetch;
pub mod laws;
pub mod lookup;
pub mod messages;
pub mod names;
pub mod namespace_manager;
pub mod object;
pub mod scheduler;
pub mod track_store;

pub use names::FullTrackName;
pub use names::Namespace;
pub use object::Extension;
pub use object::FilterType;
pub use object::GroupId;
pub use object::GroupOrder;
pub use object::MoqGroup;
pub use object::MoqObject;
pub use object::ObjectId;
pub use object::ObjectStatus;
pub use object::SubgroupId;
pub use object::SubscriptionParams;
pub use object::TrackStatus;
pub use object::TrackStatusCode;
pub use scheduler::PriorityScheduler;
pub use track_store::TrackStore;
pub use fetch::FetchRequest;
pub use namespace_manager::NamespaceAnnouncement;
pub use namespace_manager::NamespaceManager;
pub use messages::GroupStreamHeader;
pub use messages::MoqMessage;
pub use messages::SubscribeErrorCode;
pub use messages::admit_subscribe;
pub use codec::FrameError;
pub use codec::MessageKind;
