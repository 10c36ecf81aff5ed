//! The errors of a benchmark run.
use vstd::prelude::*;
use vstd::string::*;
use crate::blockhash_updater::BlockhashUpdaterError;
use crate::generator::transaction_generator::TransactionGeneratorError;

verus! {

/// Why a run failed.
#[derive(Clone, Debug, PartialEq, Eq)]
pub enum BenchClientError {
    /// A keypair file could not be read.
    KeypairReadFailure,
    /// The command line asks for something that does not fit together.
    InvalidCliArguments(String),
    /// The validator identity is not among the vote accounts, or these could not
    /// be had.
    FindValidatorIdentityFailure,
    /// A task was cancelled or panicked.
    TaskJoinFailure { task_name: String, reason: String },
    BlockhashUpdater(BlockhashUpdaterError),
    TransactionGenerator(TransactionGeneratorError),
    /// An outside service failed: account creation, leader tracking or a
    /// connection scheduler. Holds its own words.
    ServiceFailure(String),
}

/// What a [`BenchClientError`] says.
pub enum ErrorView {
    KeypairReadFailure,
    InvalidCliArguments(Seq<char>),
    FindValidatorIdentityFailure,
    TaskJoinFailure { task_name: Seq<char>, reason: Seq<char> },
    BlockhashUpdater(BlockhashUpdaterError),
    TransactionGenerator(TransactionGeneratorError),
    ServiceFailure(Seq<char>),
}

impl View for BenchClientError {
    type V = ErrorView;

    open spec fn view(&self) -> ErrorView {
        match *self {
            BenchClientError::KeypairReadFailure => ErrorView::KeypairReadFailure,
            BenchClientError::InvalidCliArguments(text) => ErrorView::InvalidCliArguments(text@),
            BenchClientError::FindValidatorIdentityFailure =>
                ErrorView::FindValidatorIdentityFailure,
            BenchClientError::TaskJoinFailure { task_name, reason } => ErrorView::TaskJoinFailure {
                task_name: task_name@,
                reason: reason@,
            },
            BenchClientError::BlockhashUpdater(error) => ErrorView::BlockhashUpdater(error),
            BenchClientError::TransactionGenerator(error) => ErrorView::TransactionGenerator(error),
            BenchClientError::ServiceFailure(text) => ErrorView::ServiceFailure(text@),
        }
    }
}

impl BenchClientError {
    /// The error in words.
    pub open spec fn words(self) -> Seq<char> {
        match self {
            BenchClientError::KeypairReadFailure => "Failed to read keypair file."@,
            BenchClientError::InvalidCliArguments(text) => "Invalid CLI arguments: "@ + text@,
            BenchClientError::FindValidatorIdentityFailure =>
                "Failed to find validator identity among the vote accounts."@,
            BenchClientError::TaskJoinFailure { task_name, reason } => "Task "@ + task_name@
                + " failed to join: "@ + reason@,
            BenchClientError::BlockhashUpdater(error) => error.words(),
            BenchClientError::TransactionGenerator(error) => error.words(),
            BenchClientError::ServiceFailure(text) => text@,
        }
    }

    /// Puts the error into words.
    pub fn message(&self) -> (text: String)
        ensures
            text@ == self.words(),
    {
        match self {
            BenchClientError::KeypairReadFailure => "Failed to read keypair file.".to_string(),
            BenchClientError::InvalidCliArguments(reason) => {
                let mut text: String = "Invalid CLI arguments: ".to_string();
                text.append(reason.as_str());
                text
            },
            BenchClientError::FindValidatorIdentityFailure =>
                "Failed to find validator identity among the vote accounts.".to_string(),
            BenchClientError::TaskJoinFailure { task_name, reason } => {
                let mut text: String = "Task ".to_string();
                text.append(task_name.as_str());
                text.append(" failed to join: ");
                text.append(reason.as_str());
                text
            },
            BenchClientError::BlockhashUpdater(error) => error.message(),
            BenchClientError::TransactionGenerator(error) => error.message(),
            BenchClientError::ServiceFailure(reason) => reason.clone(),
        }
    }
}

/// What an error says is what it is: the view hides nothing.
pub proof fn law_error_views(a: String, b: String)
    ensures
        BenchClientError::KeypairReadFailure@ is KeypairReadFailure,
        BenchClientError::InvalidCliArguments(a)@ == ErrorView::InvalidCliArguments(a@),
        BenchClientError::FindValidatorIdentityFailure@ is FindValidatorIdentityFailure,
        (BenchClientError::TaskJoinFailure { task_name: a, reason: b })@
            == (ErrorView::TaskJoinFailure { task_name: a@, reason: b@ }),
        BenchClientError::ServiceFailure(a)@ == ErrorView::ServiceFailure(a@),
{
}

/// The words of an error quote what it was given.
pub proof fn law_words_quote_the_error(a: String, b: String)
    ensures
        exists|front: Seq<char>|
            BenchClientError::InvalidCliArguments(a).words() == #[trigger] (front + a@),
        exists|front: Seq<char>, middle: Seq<char>|
            (BenchClientError::TaskJoinFailure { task_name: a, reason: b }).words()
                == #[trigger] (front + a@ + middle + b@),
        BenchClientError::ServiceFailure(a).words() == a@,
{
    assert(BenchClientError::InvalidCliArguments(a).words() == "Invalid CLI arguments: "@ + a@);
    assert((BenchClientError::TaskJoinFailure { task_name: a, reason: b }).words() == "Task "@ + a@
        + " failed to join: "@ + b@);
}

} // verus!
