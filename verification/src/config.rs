use vstd::prelude::*;

verus! {

/// Persisted application settings. Reading and writing the settings file,
/// and computing platform-specific default directories, happen at the
/// application edge; this type holds the values and the choice logic.
#[derive(Debug)]
pub struct AppConfig {
    pub can_interface: String,
    pub node_id: u8,
    pub eds_file_path: Option<String>,
    pub enable_logging: bool,
    pub log_directory: Option<String>,
}

impl Default for AppConfig {
    /// The out-of-the-box settings: no interface chosen, node 1, logging on.
    fn default() -> (c: Self)
        ensures
            c.can_interface@ == Seq::<char>::empty(),
            c.node_id == 1,
            c.eds_file_path is None,
            c.enable_logging == true,
            c.log_directory is None,
    {
        AppConfig {
            can_interface: String::new(),
            node_id: 1,
            eds_file_path: None,
            enable_logging: true,
            log_directory: None,
        }
    }
}

impl AppConfig {
    /// The directory logs go to: the configured one when set, else the
    /// caller-supplied platform default.
    pub fn get_log_directory(&self, default_directory: Option<String>) -> (r: Option<String>)
        ensures
            self.log_directory matches Some(d) ==> (r matches Some(v) && v@ == d@),
            self.log_directory is None ==> r == default_directory,
    {
        match &self.log_directory {
            Some(d) => Some(d.clone()),
            None => default_directory,
        }
    }
}

} // verus!
