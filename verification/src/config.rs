//! The compile-and-test configuration: one entry per toolchain invocation,
//! the fuzzing mode, and the file names a failure is archived under.
use vstd::prelude::*;

use vstd::string::StringSliceAdditionalSpecFns;

use sha2::Digest;

use crate::fmt_num::spec_dec_nat;

verus! {

/// One compiler invocation under test.
#[derive(Debug, Clone, PartialEq, Eq)]
pub struct TestCompilation {
    pub compiler_exe: String,
    pub compiler_args: Vec<String>,
    pub timeout_seconds: i32,
    pub tmp_file_name: Option<String>,
    pub use_tmp_file: bool,
}

/// What a fuzzing session looks for.
#[derive(Debug, Clone, Copy, PartialEq, Eq, Structural)]
pub enum GenCodeFuzzMode {
    CrashOnly,
    CrashAndDiff,
    CrashAndOptBait,
}

/// The mode a configuration names, `None` for an unknown name.
pub open spec fn spec_parse_fuzz_mode(s: Seq<char>) -> Option<GenCodeFuzzMode> {
    if s == "crash+optbait"@ {
        Some(GenCodeFuzzMode::CrashAndOptBait)
    } else if s == "crash+diff"@ {
        Some(GenCodeFuzzMode::CrashAndDiff)
    } else if s == "crash"@ {
        Some(GenCodeFuzzMode::CrashOnly)
    } else {
        None
    }
}

pub fn parse_fuzz_mode(mode_str: &str) -> (r: Option<GenCodeFuzzMode>)
    ensures
        r == spec_parse_fuzz_mode(mode_str@),
{
    if crate::arm_types::str_eq(mode_str, "crash+optbait") {
        Some(GenCodeFuzzMode::CrashAndOptBait)
    } else if crate::arm_types::str_eq(mode_str, "crash+diff") {
        Some(GenCodeFuzzMode::CrashAndDiff)
    } else if crate::arm_types::str_eq(mode_str, "crash") {
        Some(GenCodeFuzzMode::CrashOnly)
    } else {
        None
    }
}

/// The worker seed for a thread: spaced by fixed small primes so threads and
/// runs draw distinct sequences.
pub fn derive_thread_seed(thread_id: u64, initial_time: u64) -> (r: u64)
    requires
        thread_id <= 0x0001_0000,
    ensures
        r == (((thread_id + 937) * 241) as u64).wrapping_add(initial_time),
{
    let base = (thread_id + 937) * 241;
    base.wrapping_add(initial_time)
}

/// Relies on `sha2::Sha256` (`Digest::digest`): the digest of the input
/// bytes, a function of them alone.
pub uninterp spec fn sha256_of(input: Seq<u8>) -> Seq<u8>;

/// Relies on `sha2::Sha256::digest`: thirty-two digest bytes.
#[verifier::external_body]
fn sha256_digest(input: &[u8]) -> (r: Vec<u8>)
    ensures
        r@ == sha256_of(input@),
        r@.len() == 32,
{
    sha2::Sha256::digest(input).to_vec()
}

/// The lowercase hexadecimal spelling of one byte sequence.
pub open spec fn spec_hex_digit(d: nat) -> char {
    if d < 10 {
        crate::fmt_num::spec_digit_char(d)
    } else if d == 10 {
        'a'
    } else if d == 11 {
        'b'
    } else if d == 12 {
        'c'
    } else if d == 13 {
        'd'
    } else if d == 14 {
        'e'
    } else {
        'f'
    }
}

pub open spec fn spec_hex_of(bytes: Seq<u8>) -> Seq<char>
    decreases bytes.len(),
{
    if bytes.len() == 0 {
        Seq::empty()
    } else {
        spec_hex_of(bytes.drop_last()) + seq![
            spec_hex_digit((bytes.last() / 16) as nat),
            spec_hex_digit((bytes.last() % 16) as nat),
        ]
    }
}

/// Relies on `hex::encode`: two lowercase digits per input byte, in order.
#[verifier::external_body]
fn hex_encode(input: &[u8]) -> (r: String)
    ensures
        r@ == spec_hex_of(input@),
{
    hex::encode(input)
}

/// The SHA-256 digest of the input, spelled in lowercase hexadecimal.
pub fn get_hex_hash_of_bytes(input: &[u8]) -> (r: String)
    ensures
        r@ == spec_hex_of(sha256_of(input@)),
        r@.len() == 64,
{
    let digest = sha256_digest(input);
    let r = hex_encode(digest.as_slice());
    proof {
        lemma_hex_len(digest@);
    }
    r
}

/// A hex spelling is twice as long as its bytes.
proof fn lemma_hex_len(bytes: Seq<u8>)
    ensures
        spec_hex_of(bytes).len() == 2 * bytes.len(),
    decreases bytes.len(),
{
    if bytes.len() > 0 {
        lemma_hex_len(bytes.drop_last());
    }
}

/// The kind of failure being archived.
#[derive(Debug, Clone, Copy, PartialEq, Eq, Structural)]
pub enum FailureKind {
    CompilerTimeout,
    CompilerFailure,
    RuntimeDiff,
}

/// The directory a failure kind is archived under.
pub open spec fn spec_failure_dir(kind: FailureKind) -> Seq<char> {
    match kind {
        FailureKind::CompilerTimeout => "fuzz_issues/compiler_timeouts/"@,
        FailureKind::CompilerFailure => "fuzz_issues/compiler_fails/"@,
        FailureKind::RuntimeDiff => "fuzz_issues/runtime_diffs/"@,
    }
}

/// The archive stem: the first ten hex digits of the minimized source's
/// digest.
pub open spec fn spec_failure_stem(min_code: Seq<u8>) -> Seq<char> {
    spec_hex_of(sha256_of(min_code)).subrange(0, 10)
}

/// The files an archived failure consists of: each path and its contents.
/// The stem is the first ten hex digits of the minimized source's digest;
/// a runtime difference also archives the captured input and the metadata.
pub fn failure_archive_files(
    kind: FailureKind,
    orig_code: &str,
    min_code: &str,
    input_text: &str,
    metadata: &str,
) -> (r: Vec<(String, String)>)
    ensures
        ({
            let stem = spec_failure_stem(min_code.spec_bytes());
            let dir = spec_failure_dir(kind);
            &&& r@.len() == (if kind is RuntimeDiff {
                4int
            } else {
                2int
            })
            &&& r@[0].0@ == dir + stem + "_orig.cpp"@
            &&& r@[0].1@ == orig_code@
            &&& r@[1].0@ == dir + stem + "_min.cpp"@
            &&& r@[1].1@ == min_code@
            &&& kind is RuntimeDiff ==> r@[2].0@ == dir + stem + "_input.input"@ && r@[2].1@
                == input_text@ && r@[3].0@ == dir + stem + "_min_meta.meta"@ && r@[3].1@
                == metadata@
        }),
{
    let hash_full = get_hex_hash_of_bytes(min_code.as_bytes());
    let stem = hash_full.as_str().substring_char(0, 10);
    proof {
        assert(stem@ == spec_failure_stem(min_code.spec_bytes()));
    }
    let dir = match kind {
        FailureKind::CompilerTimeout => "fuzz_issues/compiler_timeouts/",
        FailureKind::CompilerFailure => "fuzz_issues/compiler_fails/",
        FailureKind::RuntimeDiff => "fuzz_issues/runtime_diffs/",
    };
    proof {
        assert(dir@ == spec_failure_dir(kind));
    }
    let mut files: Vec<(String, String)> = Vec::new();
    let mut orig_name = dir.to_owned();
    orig_name.append(stem);
    orig_name.append("_orig.cpp");
    proof {
        assert(orig_name@ =~= spec_failure_dir(kind) + spec_failure_stem(min_code.spec_bytes())
            + "_orig.cpp"@);
    }
    files.push((orig_name, orig_code.to_owned()));
    let mut min_name = dir.to_owned();
    min_name.append(stem);
    min_name.append("_min.cpp");
    proof {
        assert(min_name@ =~= spec_failure_dir(kind) + spec_failure_stem(min_code.spec_bytes())
            + "_min.cpp"@);
    }
    files.push((min_name, min_code.to_owned()));
    if matches!(kind, FailureKind::RuntimeDiff) {
        let mut input_name = dir.to_owned();
        input_name.append(stem);
        input_name.append("_input.input");
        proof {
            assert(input_name@ =~= spec_failure_dir(kind) + spec_failure_stem(
                min_code.spec_bytes(),
            ) + "_input.input"@);
        }
        files.push((input_name, input_text.to_owned()));
        let mut meta_name = dir.to_owned();
        meta_name.append(stem);
        meta_name.append("_min_meta.meta");
        proof {
            assert(meta_name@ =~= spec_failure_dir(kind) + spec_failure_stem(min_code.spec_bytes())
                + "_min_meta.meta"@);
        }
        files.push((meta_name, metadata.to_owned()));
    }
    files
}

} // verus!
