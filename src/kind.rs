//! The kinds of configuration document and where each one lives.
//!
//! Each kind is one file under `Config/` in the application's data
//! directory, seeded from a template among the application's resources.
//! Its entries sit under one field of the document, and each entry names
//! its owner under one key, with one value meaning "shipped by the
//! application".

use vstd::prelude::*;

verus! {

/// A kind of configuration document.
#[derive(Clone, Copy, Debug, PartialEq, Eq, Structural)]
pub enum ConfigKind {
    /// The registry of tool servers; its entries form a JSON object.
    Tools,
    /// The registry of agents; its entries form a JSON array.
    Agents,
}

/// The file name of a kind's document.
pub open spec fn file_name_of(k: ConfigKind) -> Seq<char> {
    match k {
        ConfigKind::Tools => "mcp.config.json"@,
        ConfigKind::Agents => "agent.config.json"@,
    }
}

/// The field that holds a kind's entries.
pub open spec fn entries_field_of(k: ConfigKind) -> Seq<char> {
    match k {
        ConfigKind::Tools => "mcpServers"@,
        ConfigKind::Agents => "agents"@,
    }
}

/// The key under which an entry names its owner.
pub open spec fn origin_key_of(k: ConfigKind) -> Seq<char> {
    match k {
        ConfigKind::Tools => "aiden_type"@,
        ConfigKind::Agents => "source"@,
    }
}

/// The owner value that marks an entry shipped by the application.
pub open spec fn system_tag_of(k: ConfigKind) -> Seq<char> {
    match k {
        ConfigKind::Tools => "default"@,
        ConfigKind::Agents => "builtIn"@,
    }
}

/// The directory, under the application's data directory, that holds the
/// documents.
pub open spec fn config_dir() -> Seq<char> {
    "Config"@
}

impl ConfigKind {
    /// Both kinds, in the order they are brought up to date at startup.
    pub fn all() -> (r: Vec<ConfigKind>)
        ensures
            r@ == seq![ConfigKind::Tools, ConfigKind::Agents],
    {
        let mut r: Vec<ConfigKind> = Vec::new();
        r.push(ConfigKind::Tools);
        r.push(ConfigKind::Agents);
        assert(r@ =~= seq![ConfigKind::Tools, ConfigKind::Agents]);
        r
    }

    /// The file name of the kind's document.
    pub fn file_name(self) -> (r: &'static str)
        ensures
            r@ == file_name_of(self),
    {
        match self {
            ConfigKind::Tools => "mcp.config.json",
            ConfigKind::Agents => "agent.config.json",
        }
    }

    /// The field that holds the kind's entries.
    pub fn entries_field(self) -> (r: &'static str)
        ensures
            r@ == entries_field_of(self),
    {
        match self {
            ConfigKind::Tools => "mcpServers",
            ConfigKind::Agents => "agents",
        }
    }

    /// The key under which an entry names its owner.
    pub fn origin_key(self) -> (r: &'static str)
        ensures
            r@ == origin_key_of(self),
    {
        match self {
            ConfigKind::Tools => "aiden_type",
            ConfigKind::Agents => "source",
        }
    }

    /// The owner value of entries shipped by the application.
    pub fn system_tag(self) -> (r: &'static str)
        ensures
            r@ == system_tag_of(self),
    {
        match self {
            ConfigKind::Tools => "default",
            ConfigKind::Agents => "builtIn",
        }
    }

    /// Whether the kind's entries form a JSON object keyed by name (else an
    /// array).
    pub fn entries_are_keyed(self) -> (r: bool)
        ensures
            r == (self == ConfigKind::Tools),
    {
        match self {
            ConfigKind::Tools => true,
            ConfigKind::Agents => false,
        }
    }

    /// The document's path relative to the application's data directory.
    pub fn user_relative_path(self) -> (r: String)
        ensures
            r@ == config_dir() + "/"@ + file_name_of(self),
    {
        let mut r = "Config".to_string();
        r.append("/");
        r.append(self.file_name());
        r
    }

    /// The template's path relative to the resource directory.
    pub fn template_relative_path(self) -> (r: String)
        ensures
            r@ == "resources/"@ + file_name_of(self),
    {
        let mut r = "resources/".to_string();
        r.append(self.file_name());
        r
    }
}

} // verus!
