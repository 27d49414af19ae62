pub mod framing;
pub mod ordered_reliable_receiver;
pub mod reliable_sender;
pub mod sequenced_reliable_receiver;
pub mod sequenced_unreliable_receiver;
pub mod sequenced_unreliable_sender;
pub mod unordered_reliable_receiver;
pub mod unordered_unreliable_receiver;
pub mod unordered_unreliable_sender;
