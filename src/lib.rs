//! Decision logic of a request-multicast load balancer: every request is sent to
//! all backends, the first reply from a backend that is not quarantined is
//! delivered, and after each round the backends whose freshness counter lags
//! the round's maximum by more than a fixed tolerance are quarantined.

pub mod gate;
pub mod json;
pub mod quarantine;
pub mod round;
