//! Configuration options, fixed at process startup and immutable afterwards.

use vstd::prelude::*;

verus! {

/// Recognized configuration options. Loaded once at startup by the
/// surrounding application; the library only consumes the plain values.
pub struct Config {
    pub validate_server_conn: bool,
    pub server_timeout: u16,
    pub server_conn_validation_listen_timeout: u16,
    pub server_conn_validation_retry_count: u8,
    pub min_server_name_length: u16,
    pub max_server_name_length: u16,
    pub max_server_description_length: u16,
    pub allowed_chars: String,
    pub allowed_checksums: Vec<u32>,
    pub allowed_sdk_versions: Vec<String>,
    pub ban_fail_condition: bool,
    pub postgres_connection_uri: String,
}

impl Default for Config {
    /// A blank configuration with the default options.
    fn default() -> (c: Config)
        ensures
            c.validate_server_conn == false,
            c.server_timeout == 30,
            c.server_conn_validation_listen_timeout == 300,
            c.server_conn_validation_retry_count == 3,
            c.min_server_name_length == 3,
            c.max_server_name_length == 32,
            c.max_server_description_length == 256,
            c.allowed_chars@
                == "ABCDEFGHIJKLMNOPQRSTUVWXYZabcdefghijklmnopqrstuvwxyz0123456789-_ "@,
            c.allowed_checksums@.len() == 0,
            c.allowed_sdk_versions@.len() == 0,
            c.ban_fail_condition == true,
            c.postgres_connection_uri@ == Seq::<char>::empty(),
    {
        Config {
            validate_server_conn: false,
            server_timeout: 30,
            server_conn_validation_listen_timeout: 300,
            server_conn_validation_retry_count: 3,
            min_server_name_length: 3,
            max_server_name_length: 32,
            max_server_description_length: 256,
            allowed_chars: String::from_str(
                "ABCDEFGHIJKLMNOPQRSTUVWXYZabcdefghijklmnopqrstuvwxyz0123456789-_ ",
            ),
            allowed_checksums: Vec::new(),
            allowed_sdk_versions: Vec::new(),
            ban_fail_condition: true,
            postgres_connection_uri: String::new(),
        }
    }
}

} // verus!
