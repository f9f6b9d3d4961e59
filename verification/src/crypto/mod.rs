pub mod distribution;

pub use self::distribution::{DistributionDecryptor, decrypt_distribution_stream};
