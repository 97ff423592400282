//! Durable storage of the ordering: what a flush writes, in which steps,
//! and what loading makes of the file.
//!
//! The steps are carried out by the caller, in order, stopping at the first
//! that fails. The configuration file is only ever replaced by a rename of a
//! completely written sibling, so a reader, or a process that stops between
//! two steps, finds the previous document or the new one and never a part.
use vstd::prelude::*;
use crate::locations::{config_file_in, config_file_under};
use crate::model::{AppConfig, AppError, OrderConfig, CONFIG_VERSION};

verus! {

/// One file system operation of a flush.
pub enum FlushStep {
    /// Create a directory and its parents, where missing.
    CreateDir { path: String },
    /// Write `contents` to `path`, replacing what was there.
    WriteFile { path: String, contents: Vec<u8> },
    /// Rename `from` to `to`, replacing what was at `to`.
    Rename { from: String, to: String },
}

/// The sibling that a new document is written to before it replaces `dest`.
pub open spec fn temp_path(dest: Seq<char>) -> Seq<char> {
    dest + seq!['.', 't', 'm', 'p']
}

/// What a step does to the files, modelled as a map from path to contents.
pub open spec fn apply_step(files: Map<Seq<char>, Seq<u8>>, step: FlushStep) -> Map<
    Seq<char>,
    Seq<u8>,
> {
    match step {
        FlushStep::CreateDir { .. } => files,
        FlushStep::WriteFile { path, contents } => files.insert(path@, contents@),
        FlushStep::Rename { from, to } => if files.contains_key(from@) {
            files.remove(from@).insert(to@, files[from@])
        } else {
            files
        },
    }
}

/// What a sequence of steps does to the files.
pub open spec fn apply_steps(files: Map<Seq<char>, Seq<u8>>, steps: Seq<FlushStep>) -> Map<
    Seq<char>,
    Seq<u8>,
>
    decreases steps.len(),
{
    if steps.len() == 0 {
        files
    } else {
        apply_step(apply_steps(files, steps.drop_last()), steps.last())
    }
}

/// `steps` create `dir`, write `contents` to the temporary sibling of
/// `dest`, and rename that over `dest`.
pub open spec fn is_flush_plan(steps: Seq<FlushStep>, dir: Seq<char>, dest: Seq<char>, contents: Seq<u8>) -> bool {
    &&& steps.len() == 3
    &&& steps[0] matches FlushStep::CreateDir { path } && path@ == dir
    &&& steps[1] matches FlushStep::WriteFile { path, contents: c } && path@ == temp_path(dest)
        && c@ == contents
    &&& steps[2] matches FlushStep::Rename { from, to } && from@ == temp_path(dest) && to@ == dest
}

/// The steps that put the document `contents` in place as the configuration
/// file of the configuration directory `config_dir`.
pub fn flush_plan(config_dir: &str, contents: Vec<u8>) -> (r: Vec<FlushStep>)
    ensures
        is_flush_plan(r@, config_dir@, config_file_in(config_dir@), contents@),
{
    let dest = config_file_under(config_dir);
    proof {
        reveal_strlit(".tmp");
    }
    let tmp = dest.clone().concat(".tmp");
    assert(tmp@ =~= temp_path(dest@));
    let mut steps: Vec<FlushStep> = Vec::new();
    steps.push(FlushStep::CreateDir { path: config_dir.to_owned() });
    steps.push(FlushStep::WriteFile { path: tmp.clone(), contents });
    steps.push(FlushStep::Rename { from: tmp, to: dest });
    steps
}

/// What a flush saves: the staged ordering as a document of the current
/// version, or nothing where no ordering is staged.
pub fn config_to_save(staged: Option<OrderConfig>) -> (r: Option<AppConfig>)
    ensures
        match staged {
            Some(order) => r == Some(AppConfig { version: CONFIG_VERSION, order }),
            None => r is None,
        },
{
    match staged {
        Some(order) => Some(AppConfig { version: CONFIG_VERSION, order }),
        None => None,
    }
}

/// The steps of a flush of the serialized document `contents`, where the
/// configuration directory `config_dir` is known; an error where it is not.
pub fn save_order_to_disk(config_dir: Option<String>, contents: Vec<u8>) -> (r: Result<
    Vec<FlushStep>,
    AppError,
>)
    ensures
        match config_dir {
            Some(dir) => r matches Ok(steps) && is_flush_plan(
                steps@,
                dir@,
                config_file_in(dir@),
                contents@,
            ),
            None => r matches Err(AppError::Validation(m)) && m@
                == "Could not determine config directory"@,
        },
{
    match config_dir {
        Some(dir) => Ok(flush_plan(dir.as_str(), contents)),
        None => Err(AppError::Validation("Could not determine config directory".to_owned())),
    }
}

/// The document that loading yields, given what reading the file gave:
/// `None` where there is no file, which is a first run and yields the
/// default document; otherwise the parsed document or the error.
pub fn config_or_default(read: Option<Result<AppConfig, AppError>>) -> (r: Result<AppConfig, AppError>)
    ensures
        match read {
            Some(result) => r == result,
            None => r matches Ok(c) && c.version == CONFIG_VERSION && c.order.main@.len() == 0
                && c.order.folders@.len() == 0,
        },
{
    match read {
        Some(result) => result,
        None => Ok(AppConfig::default()),
    }
}

/// A flush stopped after any number of its steps leaves the destination as
/// it was, present with the same contents or absent, until the last step;
/// the last step puts the whole new document there and leaves no temporary
/// file behind.
pub proof fn lemma_flush_keeps_old_file_until_rename(
    files: Map<Seq<char>, Seq<u8>>,
    steps: Seq<FlushStep>,
    dir: Seq<char>,
    dest: Seq<char>,
    contents: Seq<u8>,
    done: int,
)
    requires
        is_flush_plan(steps, dir, dest, contents),
        0 <= done <= steps.len(),
    ensures
        done < steps.len() ==> {
            let now = apply_steps(files, steps.take(done));
            &&& now.contains_key(dest) == files.contains_key(dest)
            &&& files.contains_key(dest) ==> now[dest] == files[dest]
        },
        done == steps.len() ==> {
            let now = apply_steps(files, steps.take(done));
            &&& now.contains_key(dest)
            &&& now[dest] == contents
            &&& !now.contains_key(temp_path(dest))
        },
{
    assert(temp_path(dest).len() != dest.len());
    let s0 = steps.take(0);
    let s1 = steps.take(1);
    let s2 = steps.take(2);
    let s3 = steps.take(3);
    assert(s1.drop_last() =~= s0);
    assert(s2.drop_last() =~= s1);
    assert(s3.drop_last() =~= s2);
    assert(apply_steps(files, s0) == files);
    assert(apply_steps(files, s1) == files);
    let after_write = apply_steps(files, s2);
    assert(after_write == files.insert(temp_path(dest), contents));
    let after_rename = apply_steps(files, s3);
    assert(after_rename =~= after_write.remove(temp_path(dest)).insert(dest, contents));
}

} // verus!
