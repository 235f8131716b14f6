//! The ways in which an operation of this crate can fail.

use vstd::prelude::*;

verus! {

/// Why an operation was refused. A refused operation changes nothing.
#[derive(Debug, PartialEq, Eq)]
pub enum Error {
    /// No loadout has this name.
    LoadoutNotFound(String),
    /// A loadout with this name exists already.
    LoadoutExists(String),
    /// The default loadout cannot be deleted.
    DefaultLoadout,
    /// No contribution of the repository has this name.
    ContributionNotFound(String),
    /// A rule with this name exists already.
    RuleExists(String),
    /// A prompt with this name exists already.
    PromptExists(String),
    /// The store has no number left to give to a new row.
    IdsExhausted,
    /// The rows handed over do not form a store.
    InvalidSnapshot,
    /// The text is not the hexadecimal notation of a commit identifier.
    InvalidCommitHash(String),
    /// A commit's diff has more added or removed lines than can be counted.
    DiffTooLarge(String),
    /// No configuration file exists at this path.
    ConfigNotFound(String),
    /// No data directory is known for this user.
    NoDataDirectory,
    /// A list of texts could not be written as one text.
    ListNotEncoded,
}

/// The view of [`Error`]: the same, with every string as a `Seq<char>`.
pub enum ErrorView {
    LoadoutNotFound(Seq<char>),
    LoadoutExists(Seq<char>),
    DefaultLoadout,
    ContributionNotFound(Seq<char>),
    RuleExists(Seq<char>),
    PromptExists(Seq<char>),
    IdsExhausted,
    InvalidSnapshot,
    InvalidCommitHash(Seq<char>),
    DiffTooLarge(Seq<char>),
    ConfigNotFound(Seq<char>),
    NoDataDirectory,
    ListNotEncoded,
}

impl View for Error {
    type V = ErrorView;

    open spec fn view(&self) -> ErrorView {
        match self {
            Error::LoadoutNotFound(name) => ErrorView::LoadoutNotFound(name@),
            Error::LoadoutExists(name) => ErrorView::LoadoutExists(name@),
            Error::DefaultLoadout => ErrorView::DefaultLoadout,
            Error::ContributionNotFound(name) => ErrorView::ContributionNotFound(name@),
            Error::RuleExists(name) => ErrorView::RuleExists(name@),
            Error::PromptExists(name) => ErrorView::PromptExists(name@),
            Error::IdsExhausted => ErrorView::IdsExhausted,
            Error::InvalidSnapshot => ErrorView::InvalidSnapshot,
            Error::InvalidCommitHash(hash) => ErrorView::InvalidCommitHash(hash@),
            Error::DiffTooLarge(hash) => ErrorView::DiffTooLarge(hash@),
            Error::ConfigNotFound(path) => ErrorView::ConfigNotFound(path@),
            Error::NoDataDirectory => ErrorView::NoDataDirectory,
            Error::ListNotEncoded => ErrorView::ListNotEncoded,
        }
    }
}

/// The sentence that describes `e`.
pub open spec fn message_of(e: ErrorView) -> Seq<char> {
    match e {
        ErrorView::LoadoutNotFound(name) => "Loadout '"@ + name + "' not found"@,
        ErrorView::LoadoutExists(name) => "Loadout '"@ + name + "' already exists"@,
        ErrorView::DefaultLoadout => "Cannot delete the default loadout"@,
        ErrorView::ContributionNotFound(name) => "Contribution '"@ + name + "' not found"@,
        ErrorView::RuleExists(name) => "Agent rule '"@ + name + "' already exists"@,
        ErrorView::PromptExists(name) => "Prompt '"@ + name + "' already exists"@,
        ErrorView::IdsExhausted => "The database has run out of row identifiers"@,
        ErrorView::InvalidSnapshot => "The stored rows are inconsistent"@,
        ErrorView::InvalidCommitHash(hash) => "Invalid commit hash: "@ + hash,
        ErrorView::DiffTooLarge(hash) => "Too many changed lines in commit "@ + hash,
        ErrorView::ConfigNotFound(path) => "Config file not found: "@ + path,
        ErrorView::NoDataDirectory => "Failed to determine application data directory"@,
        ErrorView::ListNotEncoded => "Failed to encode a list"@,
    }
}

impl Error {
    /// The sentence that describes this error.
    pub fn message(&self) -> (r: String)
        ensures
            r@ == message_of(self@),
    {
        match self {
            Error::LoadoutNotFound(name) => {
                String::from_str("Loadout '").concat(name.as_str()).concat("' not found")
            },
            Error::LoadoutExists(name) => {
                String::from_str("Loadout '").concat(name.as_str()).concat("' already exists")
            },
            Error::DefaultLoadout => String::from_str("Cannot delete the default loadout"),
            Error::ContributionNotFound(name) => {
                String::from_str("Contribution '").concat(name.as_str()).concat("' not found")
            },
            Error::RuleExists(name) => {
                String::from_str("Agent rule '").concat(name.as_str()).concat("' already exists")
            },
            Error::PromptExists(name) => {
                String::from_str("Prompt '").concat(name.as_str()).concat("' already exists")
            },
            Error::IdsExhausted => String::from_str("The database has run out of row identifiers"),
            Error::InvalidSnapshot => String::from_str("The stored rows are inconsistent"),
            Error::InvalidCommitHash(hash) => {
                String::from_str("Invalid commit hash: ").concat(hash.as_str())
            },
            Error::DiffTooLarge(hash) => {
                String::from_str("Too many changed lines in commit ").concat(hash.as_str())
            },
            Error::ConfigNotFound(path) => {
                String::from_str("Config file not found: ").concat(path.as_str())
            },
            Error::NoDataDirectory => {
                String::from_str("Failed to determine application data directory")
            },
            Error::ListNotEncoded => String::from_str("Failed to encode a list"),
        }
    }
}

} // verus!
