//! Git deploys of a site: which script runs, and what the deploy reports.
use vstd::prelude::*;
use crate::text::{append, chars_of, string_of, trim, trim_v};
use crate::validation::{domain_ok, is_valid_domain};

verus! {

/// Clone or pull a repository into a site and optionally run a script.
pub struct DeployRequest {
    pub domain: String,
    pub repo_url: String,
    pub branch: String,
    pub deploy_script: Option<String>,
    pub key_path: Option<String>,
}

/// Generate a deploy key pair for a site.
pub struct KeygenRequest {
    pub domain: String,
}

/// The domain check both deploy routes make first.
pub fn check_deploy_domain(domain: &str) -> (r: Result<(), String>)
    ensures
        domain_ok(domain@) ==> r is Ok,
        !domain_ok(domain@) ==> (r matches Err(m) && m@ == "Invalid domain"@),
{
    if is_valid_domain(domain) {
        Ok(())
    } else {
        Err(string_of(&chars_of("Invalid domain")))
    }
}

/// The script a deploy runs after the checkout: the one given, unless it is
/// blank.
pub fn script_to_run(deploy_script: Option<&str>) -> (r: Option<String>)
    ensures
        match deploy_script {
            Some(s) => if trim(s@).len() > 0 { r matches Some(x) && x@ == s@ } else { r is None },
            None => r is None,
        },
{
    match deploy_script {
        Some(s) => {
            if trim_v(&chars_of(s)).len() > 0 {
                Some(string_of(&chars_of(s)))
            } else {
                None
            }
        },
        None => None,
    }
}

/// Where a failed deploy stopped.
#[derive(Debug, Clone, Copy, PartialEq, Eq, Structural)]
pub enum DeployStage {
    Git,
    Script,
}

/// What a deploy answers, besides the commit and the checkout's duration.
pub struct DeployReport {
    pub success: bool,
    pub output: String,
    pub failed_at: Option<DeployStage>,
}

pub open spec fn script_banner() -> Seq<char> {
    "\n--- Deploy Script ---\n"@
}

/// The report from the checkout's result and, when a script ran, its
/// result: a failed checkout stops there; a script's output follows the
/// checkout's under a banner.
pub fn deploy_report(git_ok: bool, git_output: &str, script: Option<(bool, &str)>) -> (r: DeployReport)
    ensures
        !git_ok ==> r.success == false && r.output@ == git_output@ && r.failed_at == Some(DeployStage::Git),
        git_ok ==> match script {
            None => r.success && r.output@ == git_output@ && r.failed_at is None,
            Some((ok, out)) => r.output@ == git_output@ + script_banner() + out@
                && r.success == ok && r.failed_at == (if ok { None } else { Some(DeployStage::Script) }),
        },
{
    if !git_ok {
        return DeployReport { success: false, output: string_of(&chars_of(git_output)), failed_at: Some(DeployStage::Git) };
    }
    match script {
        None => DeployReport { success: true, output: string_of(&chars_of(git_output)), failed_at: None },
        Some((ok, out)) => {
            let mut v = chars_of(git_output);
            append(&mut v, &chars_of("\n--- Deploy Script ---\n"));
            append(&mut v, &chars_of(out));
            DeployReport {
                success: ok,
                output: string_of(&v),
                failed_at: if ok { None } else { Some(DeployStage::Script) },
            }
        },
    }
}

} // verus!
