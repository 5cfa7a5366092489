//! Typed wrappers for the data a hash or verify operation consumes:
//! [`Password`], [`Salt`], [`SecretKey`] and [`AdditionalData`], all built
//! on the ownership-tagged byte container [`Container`].

pub mod additional_data;
pub mod container;
pub mod password;
pub mod salt;
pub mod secret_key;

pub use self::additional_data::AdditionalData;
pub use self::container::Container;
pub use self::password::Password;
pub use self::salt::Salt;
pub use self::secret_key::SecretKey;
