//! Names and lines of log files.
use crate::paths::{join_path, joined_path};
use crate::text::{debug_quoted, debug_text, has_char, mentions, str_eq, what_is_written_is_mentioned};
use vstd::prelude::*;
use vstd::string::*;

verus! {

/// Whether a name is a single component of a path.
pub open spec fn is_log_filename(name: Seq<char>) -> bool {
    &&& name.len() > 0
    &&& name != "."@
    &&& name != ".."@
    &&& !name.contains('/')
    &&& !name.contains('\\')
    &&& !name.contains('\0')
}

/// Refuses a name that is not a single component of a path: it could lead out of
/// the directory of the logs.
pub fn validate_log_filename(name: &str) -> (r: Result<(), String>)
    ensures
        match r {
            Ok(_) => is_log_filename(name@),
            Err(text) => !is_log_filename(name@) && text@ == "invalid log filename: "@
                + debug_quoted(name@),
        },
{
    if name.is_empty() || str_eq(name, ".") || str_eq(name, "..") || has_char(name, '/')
        || has_char(name, '\\') || has_char(name, '\0') {
        let mut text: String = "invalid log filename: ".to_owned();
        text.append(debug_text(name).as_str());
        return Err(text);
    }
    Ok(())
}

/// The path of a log file, or why there is none: its name is checked, its
/// directory made, and the file created, in that order.
pub fn log_file_path(
    log_dir: &str,
    log_filename: &str,
    dir_made: &Result<(), String>,
    created: &Result<(), String>,
) -> (r: Result<String, String>)
    ensures
        if !is_log_filename(log_filename@) {
            r matches Err(text) && text@ == "invalid log filename: "@ + debug_quoted(log_filename@)
        } else {
            match (*dir_made, *created) {
                (Err(why), _) => r matches Err(text) && text@
                    == "Failed to create logs directory: "@ + why@,
                (Ok(_), Err(why)) => r matches Err(text) && text@ == "Failed to create log file: "@
                    + why@,
                (Ok(_), Ok(_)) => r matches Ok(path) && path@ == joined_path(
                    log_dir@,
                    log_filename@,
                ),
            }
        },
{
    if let Err(text) = validate_log_filename(log_filename) {
        return Err(text);
    }
    if let Err(why) = dir_made {
        let mut text: String = "Failed to create logs directory: ".to_owned();
        text.append(why.as_str());
        return Err(text);
    }
    if let Err(why) = created {
        let mut text: String = "Failed to create log file: ".to_owned();
        text.append(why.as_str());
        return Err(text);
    }
    Ok(join_path(log_dir, log_filename))
}

/// The line for an error in a log.
pub fn error_line(timestamp: &str, message: &str) -> (r: String)
    ensures
        r@ == "["@ + timestamp@ + "] [error] "@ + message@,
{
    let mut line: String = "[".to_owned();
    line.append(timestamp);
    line.append("] [error] ");
    line.append(message);
    line
}

/// The line for an operation in the log of the stack.
pub fn stack_line(timestamp: &str, message: &str) -> (r: String)
    ensures
        r@ == "["@ + timestamp@ + "] "@ + message@,
{
    let mut line: String = "[".to_owned();
    line.append(timestamp);
    line.append("] ");
    line.append(message);
    line
}

/// A log file is made only under a name that is one component of a path, in the
/// directory of the logs, and only where the directory and the file could be made.
pub proof fn a_log_stays_in_its_directory(
    log_dir: &str,
    log_filename: &str,
    dir_made: Result<(), String>,
    created: Result<(), String>,
    r: Result<String, String>,
)
    requires
        call_ensures(log_file_path, (log_dir, log_filename, &dir_made, &created), r),
    ensures
        r is Ok ==> log_filename@.len() > 0 && (forall|k: int|
            0 <= k < log_filename@.len() ==> #[trigger] log_filename@[k] != '/' && log_filename@[k]
                != '\\' && log_filename@[k] != '\0') && log_filename@ != "."@ && log_filename@
            != ".."@ && dir_made is Ok && created is Ok,
        r matches Ok(path) ==> path@ == joined_path(log_dir@, log_filename@),
        r matches Err(text) ==> (is_log_filename(log_filename@) ==> match dir_made {
            Err(why) => mentions(text@, why@),
            Ok(_) => created matches Err(why) && mentions(text@, why@),
        }),
{
    if r is Ok {
        assert forall|k: int| 0 <= k < log_filename@.len() implies #[trigger] log_filename@[k]
            != '/' && log_filename@[k] != '\\' && log_filename@[k] != '\0' by {
            assert(log_filename@.contains(log_filename@[k]));
        }
    }
    if let Err(why) = dir_made {
        what_is_written_is_mentioned("Failed to create logs directory: "@, why@, ""@);
    }
    if let Err(why) = created {
        what_is_written_is_mentioned("Failed to create log file: "@, why@, ""@);
    }
}

/// A name is accepted exactly where it is one component of a path.
pub proof fn only_a_single_component_is_a_log_name(name: &str, r: Result<(), String>)
    requires
        call_ensures(validate_log_filename, (name,), r),
    ensures
        r is Ok <==> name@.len() > 0 && name@ != "."@ && name@ != ".."@ && forall|k: int|
            0 <= k < name@.len() ==> #[trigger] name@[k] != '/' && name@[k] != '\\' && name@[k]
                != '\0',
{
    if r is Ok {
        assert forall|k: int| 0 <= k < name@.len() implies #[trigger] name@[k] != '/' && name@[k]
            != '\\' && name@[k] != '\0' by {
            assert(name@.contains(name@[k]));
        }
    }
}

} // verus!
