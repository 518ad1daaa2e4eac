//! Recovery from errors during package validation.
//!
//! A validation that runs under a recovery manager does not have to stop at
//! the first error. The manager counts the errors, gives up when there are
//! too many, and otherwise answers each error with an action that depends
//! on its strategy and on what the error says: fail, turn the error into a
//! warning, skip the step, retry, or apply a fix.

use crate::errors::InstallError;
use crate::installer::InstallErrorView;
use crate::text::{
    concat2, contains_text, decimal, decimal_text, lowercase, push_text, text_contains, texts,
    to_lowercase,
};
use vstd::prelude::*;

verus! {

/// How a manager answers errors.
#[derive(Clone, Copy, Debug, PartialEq, Eq, Structural)]
pub enum RecoveryStrategy {
    /// Every error is fatal.
    FailFast,
    /// Errors become warnings.
    ContinueWithWarnings,
    /// Errors are fixed where a fix is known, and become warnings otherwise.
    AutoRecover,
    /// Steps that fail are skipped.
    SkipProblematic,
}

/// What is done about an error.
#[derive(Clone, Debug)]
pub enum RecoveryAction {
    /// The validation fails.
    Fail,
    /// The error is recorded as this warning.
    ConvertToWarning(String),
    /// The step is skipped.
    Skip,
    /// The step is tried again.
    Retry,
    /// This fix is applied.
    CustomFix(String),
}

/// An action as a plain value.
pub enum ActionView {
    Fail,
    ConvertToWarning(Seq<char>),
    Skip,
    Retry,
    CustomFix(Seq<char>),
}

impl View for RecoveryAction {
    type V = ActionView;

    open spec fn view(&self) -> ActionView {
        match self {
            RecoveryAction::Fail => ActionView::Fail,
            RecoveryAction::ConvertToWarning(w) => ActionView::ConvertToWarning(w@),
            RecoveryAction::Skip => ActionView::Skip,
            RecoveryAction::Retry => ActionView::Retry,
            RecoveryAction::CustomFix(f) => ActionView::CustomFix(f@),
        }
    }
}

impl RecoveryAction {
    /// A copy of this action.
    pub fn duplicate(&self) -> (a: RecoveryAction)
        ensures
            a@ == self@,
    {
        match self {
            RecoveryAction::Fail => RecoveryAction::Fail,
            RecoveryAction::ConvertToWarning(w) => RecoveryAction::ConvertToWarning(w.clone()),
            RecoveryAction::Skip => RecoveryAction::Skip,
            RecoveryAction::Retry => RecoveryAction::Retry,
            RecoveryAction::CustomFix(f) => RecoveryAction::CustomFix(f.clone()),
        }
    }
}

/// The counts of a recovery manager. The success rate is the share of the
/// errors that were recovered from, as it stood when an action was last
/// counted: `rate_recovered` out of `rate_total`.
#[derive(Clone, Copy, Debug, PartialEq, Eq, Structural)]
pub struct RecoveryStats {
    /// The errors that were met.
    pub total_errors: usize,
    /// The errors that were recovered from.
    pub recovered_errors: usize,
    /// The errors that became warnings.
    pub errors_to_warnings: usize,
    /// The steps that were skipped.
    pub skipped_operations: usize,
    /// The retries that were asked for.
    pub retry_attempts: usize,
    /// The recovered errors that the success rate counts.
    pub rate_recovered: usize,
    /// The errors that the success rate counts.
    pub rate_total: usize,
}

/// One more, as far as the number reaches.
pub open spec fn bumped(n: usize) -> usize {
    if n < usize::MAX {
        (n + 1) as usize
    } else {
        n
    }
}

fn bump(n: usize) -> (r: usize)
    ensures
        r == bumped(n),
{
    if n < usize::MAX {
        n + 1
    } else {
        n
    }
}

/// The counts after `action` is counted.
pub open spec fn counted(stats: RecoveryStats, action: ActionView) -> RecoveryStats {
    let after = match action {
        ActionView::Fail => stats,
        ActionView::ConvertToWarning(_) => RecoveryStats {
            recovered_errors: bumped(stats.recovered_errors),
            errors_to_warnings: bumped(stats.errors_to_warnings),
            ..stats
        },
        ActionView::Skip => RecoveryStats {
            recovered_errors: bumped(stats.recovered_errors),
            skipped_operations: bumped(stats.skipped_operations),
            ..stats
        },
        ActionView::Retry => RecoveryStats { retry_attempts: bumped(stats.retry_attempts), ..stats },
        ActionView::CustomFix(_) => RecoveryStats {
            recovered_errors: bumped(stats.recovered_errors),
            ..stats
        },
    };
    if after.total_errors > 0 {
        RecoveryStats {
            rate_recovered: after.recovered_errors,
            rate_total: after.total_errors,
            ..after
        }
    } else {
        after
    }
}

/// The counts before any error.
pub open spec fn no_stats() -> RecoveryStats {
    RecoveryStats {
        total_errors: 0,
        recovered_errors: 0,
        errors_to_warnings: 0,
        skipped_operations: 0,
        retry_attempts: 0,
        rate_recovered: 0,
        rate_total: 0,
    }
}

impl RecoveryStats {
    /// No error yet.
    pub fn new() -> (s: RecoveryStats)
        ensures
            s == no_stats(),
    {
        RecoveryStats {
            total_errors: 0,
            recovered_errors: 0,
            errors_to_warnings: 0,
            skipped_operations: 0,
            retry_attempts: 0,
            rate_recovered: 0,
            rate_total: 0,
        }
    }

    /// Whether at least half of the errors were recovered from. Before any
    /// action was counted the rate is zero.
    pub open spec fn rate_at_least_half(self) -> bool {
        self.rate_total > 0 && 2 * self.rate_recovered >= self.rate_total
    }

    /// The success rate in percent, rounded down.
    pub fn success_rate_percent(&self) -> (p: u128)
        ensures
            p == if self.rate_total == 0 {
                0
            } else {
                (self.rate_recovered * 100) / (self.rate_total as int)
            },
    {
        if self.rate_total == 0 {
            0
        } else {
            (self.rate_recovered as u128 * 100) / (self.rate_total as u128)
        }
    }
}

/// What a validation has found so far.
#[derive(Clone, Debug)]
pub struct ValidationResult {
    /// The number of files in the package.
    pub file_count: usize,
    /// The size of the package once unpacked.
    pub extracted_size: u64,
    /// The warnings that were raised.
    pub warnings: Vec<String>,
}

impl ValidationResult {
    /// Nothing found yet.
    pub fn new() -> (r: ValidationResult)
        ensures
            r.file_count == 0,
            r.extracted_size == 0,
            r.warnings@.len() == 0,
    {
        ValidationResult { file_count: 0, extracted_size: 0, warnings: Vec::new() }
    }

    /// Raises a warning.
    pub fn add_warning(&mut self, warning: String)
        ensures
            final(self).file_count == old(self).file_count,
            final(self).extracted_size == old(self).extracted_size,
            texts(final(self).warnings@) == texts(old(self).warnings@).push(warning@),
    {
        push_text(&mut self.warnings, warning);
    }
}

/// A custom answer: errors whose message contains `error_type` get
/// `action`.
#[derive(Clone, Debug)]
pub struct CustomHandler {
    pub error_type: String,
    pub action: RecoveryAction,
}

/// The recovery manager.
#[derive(Clone, Debug)]
pub struct ErrorRecoveryManager {
    pub strategy: RecoveryStrategy,
    /// The number of errors that is tolerated.
    pub max_errors: usize,
    /// The number of errors met since the last reset.
    pub error_count: usize,
    pub recovery_stats: RecoveryStats,
    /// The custom answers, in the order in which they were added.
    pub custom_handlers: Vec<CustomHandler>,
}

/// The answer of the strategy "continue with warnings" to an error with
/// the given message and its lowercase form.
pub open spec fn warning_action(message: Seq<char>, lowered: Seq<char>) -> ActionView {
    if contains_text(lowered, "corrupted"@) || contains_text(lowered, "invalid"@) {
        ActionView::ConvertToWarning(
            "Package has corruption issues but validation continuing: "@ + message,
        )
    } else if contains_text(lowered, "utf-8"@) || contains_text(lowered, "encoding"@) {
        ActionView::ConvertToWarning("Package has encoding issues but may be usable"@)
    } else if contains_text(lowered, "cksum"@) || contains_text(lowered, "checksum"@) {
        ActionView::ConvertToWarning("Package has checksum issues but attempting to continue"@)
    } else {
        ActionView::ConvertToWarning("Non-critical validation error: "@ + message)
    }
}

/// The answer of the strategy "recover automatically".
pub open spec fn auto_recovery_action(message: Seq<char>, lowered: Seq<char>) -> ActionView {
    if contains_text(lowered, "timeout"@) {
        ActionView::CustomFix("Extended timeout for large package"@)
    } else if contains_text(lowered, "permission"@) {
        ActionView::CustomFix("Applied safe permission defaults"@)
    } else if contains_text(lowered, "path"@) && contains_text(lowered, "long"@) {
        ActionView::CustomFix("Truncated overly long paths"@)
    } else if contains_text(lowered, "corrupted"@) {
        ActionView::ConvertToWarning("Auto-recovery: Skipped corrupted sections"@)
    } else {
        warning_action(message, lowered)
    }
}

/// The answer of the strategy "skip what fails". Manifest errors are too
/// important to skip and become warnings.
pub open spec fn skip_action(lowered: Seq<char>) -> ActionView {
    if contains_text(lowered, "manifest"@) {
        ActionView::ConvertToWarning("Manifest issues detected but continuing"@)
    } else if contains_text(lowered, "corrupted"@) || contains_text(lowered, "invalid"@) {
        ActionView::Skip
    } else {
        ActionView::ConvertToWarning("Skipping problematic validation component"@)
    }
}

/// The answer of a strategy.
pub open spec fn strategy_action(
    strategy: RecoveryStrategy,
    message: Seq<char>,
    lowered: Seq<char>,
) -> ActionView {
    match strategy {
        RecoveryStrategy::FailFast => ActionView::Fail,
        RecoveryStrategy::ContinueWithWarnings => warning_action(message, lowered),
        RecoveryStrategy::AutoRecover => auto_recovery_action(message, lowered),
        RecoveryStrategy::SkipProblematic => skip_action(lowered),
    }
}

/// The answer of the first custom handler whose error type the message
/// contains.
pub open spec fn custom_action(handlers: Seq<CustomHandler>, message: Seq<char>) -> Option<
    ActionView,
>
    decreases handlers.len(),
{
    if handlers.len() == 0 {
        None
    } else if contains_text(message, handlers[0].error_type@) {
        Some(handlers[0].action@)
    } else {
        custom_action(handlers.skip(1), message)
    }
}

/// The answer to an error: that of a custom handler if one applies, else
/// that of the strategy.
pub open spec fn answer(
    handlers: Seq<CustomHandler>,
    strategy: RecoveryStrategy,
    message: Seq<char>,
    lowered: Seq<char>,
) -> ActionView {
    match custom_action(handlers, message) {
        Some(action) => action,
        None => strategy_action(strategy, message, lowered),
    }
}

/// The message of the error for too many errors.
pub open spec fn too_many_message(count: usize) -> Seq<char> {
    "Too many errors during validation: "@ + decimal(count as nat)
}

/// Determines the answer of "continue with warnings", given the message
/// and its lowercase form.
pub fn determine_warning_action(message: &str, lowered: &str) -> (a: RecoveryAction)
    ensures
        a@ == warning_action(message@, lowered@),
{
    if text_contains(lowered, "corrupted") || text_contains(lowered, "invalid") {
        RecoveryAction::ConvertToWarning(
            concat2("Package has corruption issues but validation continuing: ", message),
        )
    } else if text_contains(lowered, "utf-8") || text_contains(lowered, "encoding") {
        RecoveryAction::ConvertToWarning("Package has encoding issues but may be usable".to_owned())
    } else if text_contains(lowered, "cksum") || text_contains(lowered, "checksum") {
        RecoveryAction::ConvertToWarning(
            "Package has checksum issues but attempting to continue".to_owned(),
        )
    } else {
        RecoveryAction::ConvertToWarning(concat2("Non-critical validation error: ", message))
    }
}

/// Determines the answer of "recover automatically", given the message and
/// its lowercase form.
pub fn determine_auto_recovery_action(message: &str, lowered: &str) -> (a: RecoveryAction)
    ensures
        a@ == auto_recovery_action(message@, lowered@),
{
    if text_contains(lowered, "timeout") {
        RecoveryAction::CustomFix("Extended timeout for large package".to_owned())
    } else if text_contains(lowered, "permission") {
        RecoveryAction::CustomFix("Applied safe permission defaults".to_owned())
    } else if text_contains(lowered, "path") && text_contains(lowered, "long") {
        RecoveryAction::CustomFix("Truncated overly long paths".to_owned())
    } else if text_contains(lowered, "corrupted") {
        RecoveryAction::ConvertToWarning("Auto-recovery: Skipped corrupted sections".to_owned())
    } else {
        determine_warning_action(message, lowered)
    }
}

/// Determines the answer of "skip what fails", given the lowercase form of
/// the message.
pub fn determine_skip_action(lowered: &str) -> (a: RecoveryAction)
    ensures
        a@ == skip_action(lowered@),
{
    if text_contains(lowered, "manifest") {
        RecoveryAction::ConvertToWarning("Manifest issues detected but continuing".to_owned())
    } else if text_contains(lowered, "corrupted") || text_contains(lowered, "invalid") {
        RecoveryAction::Skip
    } else {
        RecoveryAction::ConvertToWarning("Skipping problematic validation component".to_owned())
    }
}

impl ErrorRecoveryManager {
    /// A manager with the given strategy that tolerates ten errors.
    pub fn new(strategy: RecoveryStrategy) -> (m: ErrorRecoveryManager)
        ensures
            m.strategy == strategy,
            m.max_errors == 10,
            m.error_count == 0,
            m.recovery_stats == no_stats(),
            m.custom_handlers@.len() == 0,
    {
        ErrorRecoveryManager {
            strategy,
            max_errors: 10,
            error_count: 0,
            recovery_stats: RecoveryStats::new(),
            custom_handlers: Vec::new(),
        }
    }

    /// The same manager tolerating `max_errors` errors.
    pub fn with_max_errors(self, max_errors: usize) -> (m: ErrorRecoveryManager)
        ensures
            m == (ErrorRecoveryManager { max_errors, ..self }),
    {
        let mut m = self;
        m.max_errors = max_errors;
        m
    }

    /// Adds a custom answer. Earlier answers go first.
    pub fn add_custom_handler(&mut self, error_type: String, action: RecoveryAction)
        ensures
            final(self).custom_handlers@ == old(self).custom_handlers@.push(
                CustomHandler { error_type, action },
            ),
            *final(self) == (ErrorRecoveryManager {
                custom_handlers: final(self).custom_handlers,
                ..*old(self)
            }),
    {
        self.custom_handlers.push(CustomHandler { error_type, action });
    }

    /// The answer of the first custom handler that applies.
    fn custom_answer(&self, message: &str) -> (r: Option<RecoveryAction>)
        ensures
            match r {
                Some(a) => custom_action(self.custom_handlers@, message@) == Some(a@),
                None => custom_action(self.custom_handlers@, message@) is None,
            },
    {
        let handlers = &self.custom_handlers;
        let mut i: usize = 0;
        assert(handlers@.skip(0) == handlers@);
        while i < handlers.len()
            invariant
                i <= handlers.len(),
                handlers@ == self.custom_handlers@,
                custom_action(handlers@, message@) == custom_action(
                    handlers@.skip(i as int),
                    message@,
                ),
            decreases handlers.len() - i,
        {
            assert(handlers@.skip(i as int).skip(1) == handlers@.skip(i + 1));
            assert(handlers@.skip(i as int)[0] == handlers@[i as int]);
            if text_contains(message, handlers[i].error_type.as_str()) {
                return Some(handlers[i].action.duplicate());
            }
            i += 1;
        }
        None
    }

    /// Counts an error with the given message and its lowercase form, and
    /// answers it. With more errors than are tolerated the answer is an
    /// error, and no action is counted.
    pub fn handle_error_with(&mut self, message: &str, lowered: &str) -> (r: Result<
        RecoveryAction,
        InstallError,
    >)
        ensures
            final(self).strategy == old(self).strategy,
            final(self).max_errors == old(self).max_errors,
            final(self).custom_handlers == old(self).custom_handlers,
            final(self).error_count == bumped(old(self).error_count),
            match r {
                Ok(action) => bumped(old(self).error_count) <= old(self).max_errors && action@
                    == answer(old(self).custom_handlers@, old(self).strategy, message@, lowered@)
                    && final(self).recovery_stats == counted(
                    RecoveryStats {
                        total_errors: bumped(old(self).recovery_stats.total_errors),
                        ..old(self).recovery_stats
                    },
                    action@,
                ),
                Err(e) => bumped(old(self).error_count) > old(self).max_errors && e@
                    == (InstallErrorView::InvalidPackageFile {
                    path: "package"@,
                    message: too_many_message(bumped(old(self).error_count)),
                }) && final(self).recovery_stats == (RecoveryStats {
                    total_errors: bumped(old(self).recovery_stats.total_errors),
                    ..old(self).recovery_stats
                }),
            },
    {
        self.error_count = bump(self.error_count);
        self.recovery_stats.total_errors = bump(self.recovery_stats.total_errors);
        if self.error_count > self.max_errors {
            return Err(
                InstallError::InvalidPackageFile {
                    path: "package".to_owned(),
                    message: concat2(
                        "Too many errors during validation: ",
                        decimal_text(self.error_count as u64).as_str(),
                    ),
                },
            );
        }
        let action = match self.custom_answer(message) {
            Some(a) => a,
            None => match self.strategy {
                RecoveryStrategy::FailFast => RecoveryAction::Fail,
                RecoveryStrategy::ContinueWithWarnings => determine_warning_action(
                    message,
                    lowered,
                ),
                RecoveryStrategy::AutoRecover => determine_auto_recovery_action(message, lowered),
                RecoveryStrategy::SkipProblematic => determine_skip_action(lowered),
            },
        };
        self.apply_recovery_stats(&action);
        Ok(action)
    }

    /// Counts an error with the given message and answers it. What the
    /// strategies look for is looked for in the lowercase form of the
    /// message.
    pub fn handle_error(&mut self, message: &str) -> (r: Result<RecoveryAction, InstallError>)
        ensures
            final(self).strategy == old(self).strategy,
            final(self).max_errors == old(self).max_errors,
            final(self).custom_handlers == old(self).custom_handlers,
            final(self).error_count == bumped(old(self).error_count),
            match r {
                Ok(action) => bumped(old(self).error_count) <= old(self).max_errors && action@
                    == answer(
                    old(self).custom_handlers@,
                    old(self).strategy,
                    message@,
                    lowercase(message@),
                ) && final(self).recovery_stats == counted(
                    RecoveryStats {
                        total_errors: bumped(old(self).recovery_stats.total_errors),
                        ..old(self).recovery_stats
                    },
                    action@,
                ),
                Err(e) => bumped(old(self).error_count) > old(self).max_errors && e@
                    == (InstallErrorView::InvalidPackageFile {
                    path: "package"@,
                    message: too_many_message(bumped(old(self).error_count)),
                }) && final(self).recovery_stats == (RecoveryStats {
                    total_errors: bumped(old(self).recovery_stats.total_errors),
                    ..old(self).recovery_stats
                }),
            },
    {
        let lowered = to_lowercase(message);
        self.handle_error_with(message, lowered.as_str())
    }

    /// Counts an action.
    pub fn apply_recovery_stats(&mut self, action: &RecoveryAction)
        ensures
            *final(self) == (ErrorRecoveryManager {
                recovery_stats: counted(old(self).recovery_stats, action@),
                ..*old(self)
            }),
    {
        match action {
            RecoveryAction::Fail => {},
            RecoveryAction::ConvertToWarning(_) => {
                self.recovery_stats.recovered_errors = bump(self.recovery_stats.recovered_errors);
                self.recovery_stats.errors_to_warnings = bump(
                    self.recovery_stats.errors_to_warnings,
                );
            },
            RecoveryAction::Skip => {
                self.recovery_stats.recovered_errors = bump(self.recovery_stats.recovered_errors);
                self.recovery_stats.skipped_operations = bump(
                    self.recovery_stats.skipped_operations,
                );
            },
            RecoveryAction::Retry => {
                self.recovery_stats.retry_attempts = bump(self.recovery_stats.retry_attempts);
            },
            RecoveryAction::CustomFix(_) => {
                self.recovery_stats.recovered_errors = bump(self.recovery_stats.recovered_errors);
            },
        }
        if self.recovery_stats.total_errors > 0 {
            self.recovery_stats.rate_recovered = self.recovery_stats.recovered_errors;
            self.recovery_stats.rate_total = self.recovery_stats.total_errors;
        }
    }

    /// Gives a recovered validation the least figures that count as valid:
    /// one file and 1024 bytes, where it has none.
    pub fn set_recovery_defaults(result: &mut ValidationResult)
        ensures
            final(result).file_count == if old(result).file_count == 0 {
                1
            } else {
                old(result).file_count
            },
            final(result).extracted_size == if old(result).extracted_size == 0 {
                1024
            } else {
                old(result).extracted_size
            },
            final(result).warnings == old(result).warnings,
    {
        if result.file_count == 0 {
            result.file_count = 1;
        }
        if result.extracted_size == 0 {
            result.extracted_size = 1024;
        }
    }

    /// Carries out an action on the result of a validation: a failure is an
    /// error; a warning, a skip and a fix are recorded as a warning and the
    /// result gets its recovery defaults; a retry is counted.
    pub fn apply_recovery_action(
        &mut self,
        action: &RecoveryAction,
        result: &mut ValidationResult,
    ) -> (r: Result<(), InstallError>)
        ensures
            match action@ {
                ActionView::Fail => r matches Err(e) && e@ == (InstallErrorView::InvalidPackageFile {
                    path: "package"@,
                    message: "Validation failed due to unrecoverable error"@,
                }) && *final(self) == *old(self) && *final(result) == *old(result),
                ActionView::Retry => r is Ok && *final(result) == *old(result) && *final(self)
                    == (ErrorRecoveryManager {
                    recovery_stats: RecoveryStats {
                        retry_attempts: bumped(old(self).recovery_stats.retry_attempts),
                        ..old(self).recovery_stats
                    },
                    ..*old(self)
                }),
                other => r is Ok && *final(self) == *old(self) && texts(final(result).warnings@)
                    == texts(old(result).warnings@).push(warning_for(other)) && final(result).file_count == (if old(result).file_count == 0 {
                    1
                } else {
                    old(result).file_count
                }) && final(result).extracted_size == (if old(result).extracted_size == 0 {
                    1024
                } else {
                    old(result).extracted_size
                }),
            },
    {
        match action {
            RecoveryAction::Fail => {
                return Err(
                    InstallError::InvalidPackageFile {
                        path: "package".to_owned(),
                        message: "Validation failed due to unrecoverable error".to_owned(),
                    },
                );
            },
            RecoveryAction::ConvertToWarning(warning) => {
                result.add_warning(warning.clone());
                ErrorRecoveryManager::set_recovery_defaults(result);
            },
            RecoveryAction::Skip => {
                result.add_warning("Skipped problematic validation step".to_owned());
                ErrorRecoveryManager::set_recovery_defaults(result);
            },
            RecoveryAction::Retry => {
                self.recovery_stats.retry_attempts = bump(self.recovery_stats.retry_attempts);
            },
            RecoveryAction::CustomFix(fix) => {
                result.add_warning(concat2("Applied fix: ", fix.as_str()));
                ErrorRecoveryManager::set_recovery_defaults(result);
            },
        }
        Ok(())
    }

    /// The counts.
    pub fn get_stats(&self) -> (s: &RecoveryStats)
        ensures
            *s == self.recovery_stats,
    {
        &self.recovery_stats
    }

    /// Whether it is worth going on: no more errors than are tolerated, and,
    /// once there were errors, at least half of them recovered from.
    pub fn is_recovery_viable(&self) -> (r: bool)
        ensures
            r == (self.error_count <= self.max_errors && (self.recovery_stats.total_errors == 0
                || self.recovery_stats.rate_at_least_half())),
    {
        if self.recovery_stats.total_errors == 0 {
            return self.error_count <= self.max_errors;
        }
        self.error_count <= self.max_errors && self.recovery_stats.rate_total > 0 && (
        self.recovery_stats.rate_recovered as u128) * 2 >= self.recovery_stats.rate_total as u128
    }

    /// Forgets the errors of the last validation.
    pub fn reset(&mut self)
        ensures
            *final(self) == (ErrorRecoveryManager {
                error_count: 0,
                recovery_stats: no_stats(),
                ..*old(self)
            }),
    {
        self.error_count = 0;
        self.recovery_stats = RecoveryStats::new();
    }
}

/// The warning that records an action.
pub open spec fn warning_for(action: ActionView) -> Seq<char> {
    match action {
        ActionView::ConvertToWarning(w) => w,
        ActionView::Skip => "Skipped problematic validation step"@,
        ActionView::CustomFix(f) => "Applied fix: "@ + f,
        _ => Seq::<char>::empty(),
    }
}

/// Why a resilient validation step failed.
#[derive(Debug)]
pub enum ResilientError<E> {
    /// The step failed and the answer was to fail: this is its error.
    Step(E),
    /// The recovery itself failed.
    Recovery(InstallError),
}

/// Runs the outcome of a validation step through the recovery manager. A
/// step that succeeded hands its value on. A step that failed, with the
/// given message, is answered by the manager: the answer "fail" hands the
/// step's own error on; any other answer is carried out and the step
/// counts as done without a value.
pub fn resilient_validation<T, E>(
    outcome: Result<T, E>,
    message: &str,
    recovery_manager: &mut ErrorRecoveryManager,
    result: &mut ValidationResult,
) -> (r: Result<Option<T>, ResilientError<E>>)
    ensures
        final(recovery_manager).strategy == old(recovery_manager).strategy,
        final(recovery_manager).max_errors == old(recovery_manager).max_errors,
        final(recovery_manager).custom_handlers == old(recovery_manager).custom_handlers,
        match outcome {
            Ok(value) => r == Ok::<Option<T>, ResilientError<E>>(Some(value)) && *final(recovery_manager) == *old(recovery_manager) && *final(result) == *old(result),
            Err(error) => {
                let counted_error = RecoveryStats {
                    total_errors: bumped(old(recovery_manager).recovery_stats.total_errors),
                    ..old(recovery_manager).recovery_stats
                };
                &&& final(recovery_manager).error_count == bumped(
                    old(recovery_manager).error_count,
                )
                &&& if bumped(old(recovery_manager).error_count) > old(recovery_manager).max_errors {
                    r matches Err(ResilientError::Recovery(e)) && e@
                        == (InstallErrorView::InvalidPackageFile {
                        path: "package"@,
                        message: too_many_message(bumped(old(recovery_manager).error_count)),
                    }) && *final(result) == *old(result) && final(recovery_manager).recovery_stats
                        == counted_error
                } else {
                    let action = answer(
                        old(recovery_manager).custom_handlers@,
                        old(recovery_manager).strategy,
                        message@,
                        lowercase(message@),
                    );
                    match action {
                        ActionView::Fail => r == Err::<Option<T>, ResilientError<E>>(
                            ResilientError::Step(error),
                        ) && *final(result) == *old(result) && final(recovery_manager).recovery_stats == counted(counted_error, action),
                        ActionView::Retry => r == Ok::<Option<T>, ResilientError<E>>(None)
                            && *final(result) == *old(result) && final(recovery_manager).recovery_stats == (RecoveryStats {
                            retry_attempts: bumped(counted(counted_error, action).retry_attempts),
                            ..counted(counted_error, action)
                        }),
                        other => r == Ok::<Option<T>, ResilientError<E>>(None) && texts(
                            final(result).warnings@,
                        ) == texts(old(result).warnings@).push(warning_for(other)) && final(result).file_count == (if old(result).file_count == 0 {
                            1
                        } else {
                            old(result).file_count
                        }) && final(result).extracted_size == (if old(result).extracted_size
                            == 0 {
                            1024
                        } else {
                            old(result).extracted_size
                        }) && final(recovery_manager).recovery_stats == counted(
                            counted_error,
                            action,
                        ),
                    }
                }
            },
        },
{
    match outcome {
        Ok(value) => Ok(Some(value)),
        Err(error) => {
            let action = match recovery_manager.handle_error(message) {
                Ok(a) => a,
                Err(e) => {
                    return Err(ResilientError::Recovery(e));
                },
            };
            match &action {
                RecoveryAction::Fail => Err(ResilientError::Step(error)),
                _ => match recovery_manager.apply_recovery_action(&action, result) {
                    Ok(_) => Ok(None),
                    Err(e) => Err(ResilientError::Recovery(e)),
                },
            }
        },
    }
}

/// Managers for the usual situations.
#[derive(Clone, Copy, Debug)]
pub struct RecoveryPresets;

impl RecoveryPresets {
    /// For development: warnings, fifty errors tolerated.
    pub fn development() -> (m: ErrorRecoveryManager)
        ensures
            m.strategy == RecoveryStrategy::ContinueWithWarnings,
            m.max_errors == 50,
            m.error_count == 0,
            m.recovery_stats == no_stats(),
            m.custom_handlers@.len() == 0,
    {
        ErrorRecoveryManager::new(RecoveryStrategy::ContinueWithWarnings).with_max_errors(50)
    }

    /// For production: automatic recovery, ten errors tolerated.
    pub fn production() -> (m: ErrorRecoveryManager)
        ensures
            m.strategy == RecoveryStrategy::AutoRecover,
            m.max_errors == 10,
            m.error_count == 0,
            m.recovery_stats == no_stats(),
            m.custom_handlers@.len() == 0,
    {
        ErrorRecoveryManager::new(RecoveryStrategy::AutoRecover).with_max_errors(10)
    }

    /// Strict: every error is fatal, three errors tolerated.
    pub fn strict() -> (m: ErrorRecoveryManager)
        ensures
            m.strategy == RecoveryStrategy::FailFast,
            m.max_errors == 3,
            m.error_count == 0,
            m.recovery_stats == no_stats(),
            m.custom_handlers@.len() == 0,
    {
        ErrorRecoveryManager::new(RecoveryStrategy::FailFast).with_max_errors(3)
    }

    /// For tests: warnings, a hundred errors tolerated.
    pub fn testing() -> (m: ErrorRecoveryManager)
        ensures
            m.strategy == RecoveryStrategy::ContinueWithWarnings,
            m.max_errors == 100,
            m.error_count == 0,
            m.recovery_stats == no_stats(),
            m.custom_handlers@.len() == 0,
    {
        ErrorRecoveryManager::new(RecoveryStrategy::ContinueWithWarnings).with_max_errors(100)
    }
}

} // verus!
