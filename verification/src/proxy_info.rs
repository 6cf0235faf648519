//! The proxy's version banner.

use vstd::prelude::*;
use vstd::seq_lib::lemma_concat_associative;

verus! {

/// Text shown for build facts that were not recorded.
pub open spec fn fallback_text() -> Seq<char> {
    "Unknown (env var does not exist when building)"@
}

pub open spec fn or_fallback(v: Option<&str>) -> Seq<char> {
    match v {
        Some(s) => s@,
        None => fallback_text(),
    }
}

pub open spec fn version_info_text(
    release_version: &str,
    git_hash: Option<&str>,
    git_branch: Option<&str>,
    build_time: Option<&str>,
    rust_version: Option<&str>,
) -> Seq<char> {
    "\nRelease Version:   "@ + release_version@ + "\nGit Commit Hash:   "@ + or_fallback(git_hash)
        + "\nGit Commit Branch: "@ + or_fallback(git_branch) + "\nUTC Build Time:    "@ + or_fallback(build_time)
        + "\nRust Version:      "@ + or_fallback(rust_version)
}

/// `value` stands in `text` between a line's label `label` and the start of
/// the next line `next`: `text` is `before + value + after`, where `before`
/// ends with the label and `after` starts with the next line.  With `None`
/// for `next`, the value ends the text.
pub open spec fn labelled_value(
    text: Seq<char>,
    before: Seq<char>,
    label: Seq<char>,
    value: Seq<char>,
    after: Seq<char>,
    next: Option<Seq<char>>,
) -> bool {
    &&& text == before + value + after
    &&& label.is_suffix_of(before)
    &&& match next {
        Some(n) => n.is_prefix_of(after),
        None => after.len() == 0,
    }
}

/// The release version stands after its label and right before the commit hash line,
/// and nothing else in the banner depends on it: two banners that differ only
/// in the release version share the text around it.
pub proof fn lemma_release_version_line(
    release_version_a: &str,
    release_version_b: &str,
    git_hash: Option<&str>,
    git_branch: Option<&str>,
    build_time: Option<&str>,
    rust_version: Option<&str>,
)
    ensures
        exists|before: Seq<char>, after: Seq<char>|
            #![trigger labelled_value(
                version_info_text(release_version_a, git_hash, git_branch, build_time, rust_version),
                before,
                "\nRelease Version:   "@,
                release_version_a@,
                after,
                Some("\nGit Commit Hash:   "@),
            )]
            labelled_value(
                version_info_text(release_version_a, git_hash, git_branch, build_time, rust_version),
                before,
                "\nRelease Version:   "@,
                release_version_a@,
                after,
                Some("\nGit Commit Hash:   "@),
            )
                && labelled_value(
                    version_info_text(release_version_b, git_hash, git_branch, build_time, rust_version),
                    before,
                    "\nRelease Version:   "@,
                    release_version_b@,
                    after,
                    Some("\nGit Commit Hash:   "@),
                ),
{
    let release_label = "\nRelease Version:   "@;
    let hash_label = "\nGit Commit Hash:   "@;
    let branch_label = "\nGit Commit Branch: "@;
    let time_label = "\nUTC Build Time:    "@;
    let rust_label = "\nRust Version:      "@;
    let hash = or_fallback(git_hash);
    let branch = or_fallback(git_branch);
    let time = or_fallback(build_time);
    let rust = or_fallback(rust_version);
    let before = release_label;
    let after = hash_label + hash + branch_label + branch + time_label + time + rust_label + rust;
    assert(release_label.is_suffix_of(before)) by {
        lemma_suffix_of_add(Seq::<char>::empty(), release_label);
        assert(Seq::<char>::empty() + release_label =~= release_label);
    }
    lemma_prefix_of_add(hash_label, hash);
    lemma_prefix_grows(hash_label, hash_label + hash, branch_label);
    lemma_prefix_grows(hash_label, hash_label + hash + branch_label, branch);
    lemma_prefix_grows(hash_label, hash_label + hash + branch_label + branch, time_label);
    lemma_prefix_grows(hash_label, hash_label + hash + branch_label + branch + time_label, time);
    lemma_prefix_grows(hash_label, hash_label + hash + branch_label + branch + time_label + time, rust_label);
    lemma_prefix_grows(hash_label, hash_label + hash + branch_label + branch + time_label + time + rust_label, rust);
    lemma_concat_associative(before + release_version_a@, hash_label, hash);
    lemma_concat_associative(before + release_version_a@, hash_label + hash, branch_label);
    lemma_concat_associative(before + release_version_a@, hash_label + hash + branch_label, branch);
    lemma_concat_associative(before + release_version_a@, hash_label + hash + branch_label + branch, time_label);
    lemma_concat_associative(before + release_version_a@, hash_label + hash + branch_label + branch + time_label, time);
    lemma_concat_associative(before + release_version_a@, hash_label + hash + branch_label + branch + time_label + time, rust_label);
    lemma_concat_associative(before + release_version_a@, hash_label + hash + branch_label + branch + time_label + time + rust_label, rust);
    lemma_concat_associative(before + release_version_b@, hash_label, hash);
    lemma_concat_associative(before + release_version_b@, hash_label + hash, branch_label);
    lemma_concat_associative(before + release_version_b@, hash_label + hash + branch_label, branch);
    lemma_concat_associative(before + release_version_b@, hash_label + hash + branch_label + branch, time_label);
    lemma_concat_associative(before + release_version_b@, hash_label + hash + branch_label + branch + time_label, time);
    lemma_concat_associative(before + release_version_b@, hash_label + hash + branch_label + branch + time_label + time, rust_label);
    lemma_concat_associative(before + release_version_b@, hash_label + hash + branch_label + branch + time_label + time + rust_label, rust);
    assert(labelled_value(version_info_text(release_version_a, git_hash, git_branch, build_time, rust_version), before, release_label, release_version_a@, after, Some(hash_label)));
}

/// The commit hash stands after its label and right before the commit branch line,
/// and nothing else in the banner depends on it: two banners that differ only
/// in the commit hash share the text around it.
pub proof fn lemma_git_hash_line(
    release_version: &str,
    git_hash_a: Option<&str>,
    git_hash_b: Option<&str>,
    git_branch: Option<&str>,
    build_time: Option<&str>,
    rust_version: Option<&str>,
)
    ensures
        exists|before: Seq<char>, after: Seq<char>|
            #![trigger labelled_value(
                version_info_text(release_version, git_hash_a, git_branch, build_time, rust_version),
                before,
                "\nGit Commit Hash:   "@,
                or_fallback(git_hash_a),
                after,
                Some("\nGit Commit Branch: "@),
            )]
            labelled_value(
                version_info_text(release_version, git_hash_a, git_branch, build_time, rust_version),
                before,
                "\nGit Commit Hash:   "@,
                or_fallback(git_hash_a),
                after,
                Some("\nGit Commit Branch: "@),
            )
                && labelled_value(
                    version_info_text(release_version, git_hash_b, git_branch, build_time, rust_version),
                    before,
                    "\nGit Commit Hash:   "@,
                    or_fallback(git_hash_b),
                    after,
                    Some("\nGit Commit Branch: "@),
                ),
{
    let release_label = "\nRelease Version:   "@;
    let hash_label = "\nGit Commit Hash:   "@;
    let branch_label = "\nGit Commit Branch: "@;
    let time_label = "\nUTC Build Time:    "@;
    let rust_label = "\nRust Version:      "@;
    let release = release_version@;
    let branch = or_fallback(git_branch);
    let time = or_fallback(build_time);
    let rust = or_fallback(rust_version);
    let before = release_label + release + hash_label;
    let after = branch_label + branch + time_label + time + rust_label + rust;
    lemma_suffix_of_add(release_label + release, hash_label);
    lemma_prefix_of_add(branch_label, branch);
    lemma_prefix_grows(branch_label, branch_label + branch, time_label);
    lemma_prefix_grows(branch_label, branch_label + branch + time_label, time);
    lemma_prefix_grows(branch_label, branch_label + branch + time_label + time, rust_label);
    lemma_prefix_grows(branch_label, branch_label + branch + time_label + time + rust_label, rust);
    lemma_concat_associative(before + or_fallback(git_hash_a), branch_label, branch);
    lemma_concat_associative(before + or_fallback(git_hash_a), branch_label + branch, time_label);
    lemma_concat_associative(before + or_fallback(git_hash_a), branch_label + branch + time_label, time);
    lemma_concat_associative(before + or_fallback(git_hash_a), branch_label + branch + time_label + time, rust_label);
    lemma_concat_associative(before + or_fallback(git_hash_a), branch_label + branch + time_label + time + rust_label, rust);
    lemma_concat_associative(before + or_fallback(git_hash_b), branch_label, branch);
    lemma_concat_associative(before + or_fallback(git_hash_b), branch_label + branch, time_label);
    lemma_concat_associative(before + or_fallback(git_hash_b), branch_label + branch + time_label, time);
    lemma_concat_associative(before + or_fallback(git_hash_b), branch_label + branch + time_label + time, rust_label);
    lemma_concat_associative(before + or_fallback(git_hash_b), branch_label + branch + time_label + time + rust_label, rust);
    assert(labelled_value(version_info_text(release_version, git_hash_a, git_branch, build_time, rust_version), before, hash_label, or_fallback(git_hash_a), after, Some(branch_label)));
}

/// The commit branch stands after its label and right before the build time line,
/// and nothing else in the banner depends on it: two banners that differ only
/// in the commit branch share the text around it.
pub proof fn lemma_git_branch_line(
    release_version: &str,
    git_hash: Option<&str>,
    git_branch_a: Option<&str>,
    git_branch_b: Option<&str>,
    build_time: Option<&str>,
    rust_version: Option<&str>,
)
    ensures
        exists|before: Seq<char>, after: Seq<char>|
            #![trigger labelled_value(
                version_info_text(release_version, git_hash, git_branch_a, build_time, rust_version),
                before,
                "\nGit Commit Branch: "@,
                or_fallback(git_branch_a),
                after,
                Some("\nUTC Build Time:    "@),
            )]
            labelled_value(
                version_info_text(release_version, git_hash, git_branch_a, build_time, rust_version),
                before,
                "\nGit Commit Branch: "@,
                or_fallback(git_branch_a),
                after,
                Some("\nUTC Build Time:    "@),
            )
                && labelled_value(
                    version_info_text(release_version, git_hash, git_branch_b, build_time, rust_version),
                    before,
                    "\nGit Commit Branch: "@,
                    or_fallback(git_branch_b),
                    after,
                    Some("\nUTC Build Time:    "@),
                ),
{
    let release_label = "\nRelease Version:   "@;
    let hash_label = "\nGit Commit Hash:   "@;
    let branch_label = "\nGit Commit Branch: "@;
    let time_label = "\nUTC Build Time:    "@;
    let rust_label = "\nRust Version:      "@;
    let release = release_version@;
    let hash = or_fallback(git_hash);
    let time = or_fallback(build_time);
    let rust = or_fallback(rust_version);
    let before = release_label + release + hash_label + hash + branch_label;
    let after = time_label + time + rust_label + rust;
    lemma_suffix_of_add(release_label + release + hash_label + hash, branch_label);
    lemma_prefix_of_add(time_label, time);
    lemma_prefix_grows(time_label, time_label + time, rust_label);
    lemma_prefix_grows(time_label, time_label + time + rust_label, rust);
    lemma_concat_associative(before + or_fallback(git_branch_a), time_label, time);
    lemma_concat_associative(before + or_fallback(git_branch_a), time_label + time, rust_label);
    lemma_concat_associative(before + or_fallback(git_branch_a), time_label + time + rust_label, rust);
    lemma_concat_associative(before + or_fallback(git_branch_b), time_label, time);
    lemma_concat_associative(before + or_fallback(git_branch_b), time_label + time, rust_label);
    lemma_concat_associative(before + or_fallback(git_branch_b), time_label + time + rust_label, rust);
    assert(labelled_value(version_info_text(release_version, git_hash, git_branch_a, build_time, rust_version), before, branch_label, or_fallback(git_branch_a), after, Some(time_label)));
}

/// The build time stands after its label and right before the rust version line,
/// and nothing else in the banner depends on it: two banners that differ only
/// in the build time share the text around it.
pub proof fn lemma_build_time_line(
    release_version: &str,
    git_hash: Option<&str>,
    git_branch: Option<&str>,
    build_time_a: Option<&str>,
    build_time_b: Option<&str>,
    rust_version: Option<&str>,
)
    ensures
        exists|before: Seq<char>, after: Seq<char>|
            #![trigger labelled_value(
                version_info_text(release_version, git_hash, git_branch, build_time_a, rust_version),
                before,
                "\nUTC Build Time:    "@,
                or_fallback(build_time_a),
                after,
                Some("\nRust Version:      "@),
            )]
            labelled_value(
                version_info_text(release_version, git_hash, git_branch, build_time_a, rust_version),
                before,
                "\nUTC Build Time:    "@,
                or_fallback(build_time_a),
                after,
                Some("\nRust Version:      "@),
            )
                && labelled_value(
                    version_info_text(release_version, git_hash, git_branch, build_time_b, rust_version),
                    before,
                    "\nUTC Build Time:    "@,
                    or_fallback(build_time_b),
                    after,
                    Some("\nRust Version:      "@),
                ),
{
    let release_label = "\nRelease Version:   "@;
    let hash_label = "\nGit Commit Hash:   "@;
    let branch_label = "\nGit Commit Branch: "@;
    let time_label = "\nUTC Build Time:    "@;
    let rust_label = "\nRust Version:      "@;
    let release = release_version@;
    let hash = or_fallback(git_hash);
    let branch = or_fallback(git_branch);
    let rust = or_fallback(rust_version);
    let before = release_label + release + hash_label + hash + branch_label + branch + time_label;
    let after = rust_label + rust;
    lemma_suffix_of_add(release_label + release + hash_label + hash + branch_label + branch, time_label);
    lemma_prefix_of_add(rust_label, rust);
    lemma_concat_associative(before + or_fallback(build_time_a), rust_label, rust);
    lemma_concat_associative(before + or_fallback(build_time_b), rust_label, rust);
    assert(labelled_value(version_info_text(release_version, git_hash, git_branch, build_time_a, rust_version), before, time_label, or_fallback(build_time_a), after, Some(rust_label)));
}

/// The rust version stands after its label and ends the banner, and
/// nothing else in the banner depends on it: two banners that differ only in
/// the rust version share the text before it.
pub proof fn lemma_rust_version_line(
    release_version: &str,
    git_hash: Option<&str>,
    git_branch: Option<&str>,
    build_time: Option<&str>,
    rust_version_a: Option<&str>,
    rust_version_b: Option<&str>,
)
    ensures
        exists|before: Seq<char>, after: Seq<char>|
            #![trigger labelled_value(
                version_info_text(release_version, git_hash, git_branch, build_time, rust_version_a),
                before,
                "\nRust Version:      "@,
                or_fallback(rust_version_a),
                after,
                None,
            )]
            labelled_value(
                version_info_text(release_version, git_hash, git_branch, build_time, rust_version_a),
                before,
                "\nRust Version:      "@,
                or_fallback(rust_version_a),
                after,
                None,
            )
                && labelled_value(
                    version_info_text(release_version, git_hash, git_branch, build_time, rust_version_b),
                    before,
                    "\nRust Version:      "@,
                    or_fallback(rust_version_b),
                    after,
                    None,
                ),
{
    let release_label = "\nRelease Version:   "@;
    let hash_label = "\nGit Commit Hash:   "@;
    let branch_label = "\nGit Commit Branch: "@;
    let time_label = "\nUTC Build Time:    "@;
    let rust_label = "\nRust Version:      "@;
    let release = release_version@;
    let hash = or_fallback(git_hash);
    let branch = or_fallback(git_branch);
    let time = or_fallback(build_time);
    let before = release_label + release + hash_label + hash + branch_label + branch + time_label + time + rust_label;
    let after = Seq::<char>::empty();
    lemma_suffix_of_add(release_label + release + hash_label + hash + branch_label + branch + time_label + time, rust_label);
    assert(before + or_fallback(rust_version_a) =~= before + or_fallback(rust_version_a) + after);
    assert(before + or_fallback(rust_version_b) =~= before + or_fallback(rust_version_b) + after);
    assert(labelled_value(version_info_text(release_version, git_hash, git_branch, build_time, rust_version_a), before, rust_label, or_fallback(rust_version_a), after, None));
}

/// `b` ends `a + b`.
proof fn lemma_suffix_of_add(a: Seq<char>, b: Seq<char>)
    ensures
        b.is_suffix_of(a + b),
{
    assert(b =~= (a + b).subrange(a.len() as int, (a + b).len() as int));
}

/// `a` starts `a + b`.
proof fn lemma_prefix_of_add(a: Seq<char>, b: Seq<char>)
    ensures
        a.is_prefix_of(a + b),
{
    assert(a =~= (a + b).subrange(0, a.len() as int));
}

/// What starts `s` starts `s + c`.
proof fn lemma_prefix_grows(a: Seq<char>, s: Seq<char>, c: Seq<char>)
    requires
        a.is_prefix_of(s),
    ensures
        a.is_prefix_of(s + c),
{
    assert(a =~= (s + c).subrange(0, a.len() as int));
}

fn or_fallback_str<'a>(v: Option<&'a str>) -> (r: &'a str)
    ensures
        r@ == or_fallback(v),
{
    match v {
        Some(s) => s,
        None => "Unknown (env var does not exist when building)",
    }
}

/// The version banner of the proxy, one fact per line, each line starting
/// with a newline; facts that were not recorded at build time read
/// "Unknown (env var does not exist when building)".
pub fn proxy_version_info(
    release_version: &str,
    git_hash: Option<&str>,
    git_branch: Option<&str>,
    build_time: Option<&str>,
    rust_version: Option<&str>,
) -> (r: String)
    ensures
        r@ == version_info_text(release_version, git_hash, git_branch, build_time, rust_version),
{
    let mut s = String::from_str("\nRelease Version:   ");
    s.append(release_version);
    s.append("\nGit Commit Hash:   ");
    s.append(or_fallback_str(git_hash));
    s.append("\nGit Commit Branch: ");
    s.append(or_fallback_str(git_branch));
    s.append("\nUTC Build Time:    ");
    s.append(or_fallback_str(build_time));
    s.append("\nRust Version:      ");
    s.append(or_fallback_str(rust_version));
    s
}

} // verus!
