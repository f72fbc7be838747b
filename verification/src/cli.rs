use vstd::prelude::*;

verus! {

/// The settings the server is started with. The surrounding binary parses
/// them from the command line and converts; the library only reads them.
pub struct CommandLineArgs {
    /// The listening address to bind.
    pub listening_address: String,
    /// Directory to serve, default the current directory.
    pub directory: String,
    /// Css class name for the rendered document's container.
    pub css_class: String,
    /// Css entries for styling.
    pub styles: Option<Vec<String>>,
    /// Script entries to link or inline.
    pub scripts: Option<Vec<String>>,
}

impl Default for CommandLineArgs {
    /// The documented defaults: every list empty, the conventional
    /// address, directory and class name.
    fn default() -> (r: CommandLineArgs)
        ensures
            r.listening_address@ == "0.0.0.0:8080"@,
            r.directory@ == "./"@,
            r.css_class@ == "markdown-body"@,
            r.styles is None,
            r.scripts is None,
    {
        CommandLineArgs {
            listening_address: String::from_str("0.0.0.0:8080"),
            directory: String::from_str("./"),
            css_class: String::from_str("markdown-body"),
            styles: None,
            scripts: None,
        }
    }
}

} // verus!
