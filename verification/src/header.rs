pub mod janitor;
pub mod request_shard;
pub mod response_buckets;
pub mod response_ignore;
pub mod response_ttl;
pub mod status;
