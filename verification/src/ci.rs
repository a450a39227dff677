//! Whether a build runs in continuous integration.
//!
//! It does not outlive its machine there, so that uploads have to be waited for.

use vstd::prelude::*;
use vstd::string::*;

use crate::text;
use crate::vars;

verus! {

/// How a provider of continuous integration is told by a variable.
#[derive(Debug)]
pub enum CiCheckVar {
    /// The variable is `true` or `1`.
    Truthy(&'static str),
    /// The variable is set, to whatever value.
    Present(&'static str),
    /// The variable has the given value.
    Equals(&'static str, &'static str),
}

/// Whether a variable is `true` or `1`.
pub open spec fn is_truthy(env: Seq<(String, String)>, var: Seq<char>) -> bool {
    vars::value_of(env, var) == Some("true"@) || vars::value_of(env, var) == Some("1"@)
}

/// Whether a variable is set.
pub open spec fn is_present(env: Seq<(String, String)>, var: Seq<char>) -> bool {
    vars::value_of(env, var) is Some
}

/// Whether a variable has some value.
pub open spec fn is_equal(env: Seq<(String, String)>, var: Seq<char>, value: Seq<char>) -> bool {
    vars::value_of(env, var) == Some(value)
}

/// Whether the environment is that of a provider of continuous integration: most
/// set `CI`, and each sets a variable of its own.
pub open spec fn is_ci_env(env: Seq<(String, String)>) -> bool {
    ||| is_truthy(env, "CI"@)
    ||| is_truthy(env, "APPVEYOR"@)
    ||| is_present(env, "BUILD_BUILDURI"@)
    ||| is_present(env, "bamboo_agentId"@)
    ||| is_present(env, "BITBUCKET_BUILD_NUMBER"@)
    ||| is_truthy(env, "BITRISE_IO"@)
    ||| is_present(env, "BUDDY_WORKSPACE_ID"@)
    ||| is_truthy(env, "BUILDKITE"@)
    ||| is_equal(env, "CF_PAGES"@, "1"@)
    ||| is_present(env, "CF_BUILD_ID"@)
    ||| is_truthy(env, "CIRCLECI"@)
    ||| is_truthy(env, "CIRRUS_CI"@)
    ||| is_equal(env, "CI_NAME"@, "codeship"@)
    ||| is_present(env, "CODEBUILD_BUILD_ID"@)
    ||| is_present(env, "DISTELLI_APPNAME"@)
    ||| is_truthy(env, "DRONE"@)
    ||| is_truthy(env, "GITHUB_ACTIONS"@)
    ||| is_truthy(env, "GITLAB_CI"@)
    ||| is_present(env, "JB_SPACE_EXECUTION_NUMBER"@)
    ||| is_present(env, "JENKINS_URL"@)
    ||| is_equal(env, "NETLIFY"@, "true"@)
    ||| is_present(env, "NOW_GITHUB_DEPLOYMENT"@)
    ||| is_truthy(env, "SAILCI"@)
    ||| is_truthy(env, "SCREWDRIVER"@)
    ||| is_truthy(env, "SCRUTINIZER"@)
    ||| is_truthy(env, "SEMAPHORE"@)
    ||| is_truthy(env, "SHIPPABLE"@)
    ||| is_present(env, "TEAMCITY_VERSION"@)
    ||| is_truthy(env, "TRAVIS"@)
    ||| is_truthy(env, "VELA"@)
    ||| is_truthy(env, "VERCEL"@)
    ||| is_present(env, "WERCKER_MAIN_PIPELINE_STARTED"@)
}

/// Whether a provider is told by its variable.
pub fn matches_ci_var(env: &Vec<(String, String)>, ci_var: &CiCheckVar) -> (r: bool)
    ensures
        r == (match *ci_var {
            CiCheckVar::Truthy(var) => is_truthy(env@, var@),
            CiCheckVar::Present(var) => is_present(env@, var@),
            CiCheckVar::Equals(var, expected) => is_equal(env@, var@, expected@),
        }),
{
    match ci_var {
        CiCheckVar::Truthy(var) => match vars::get(env, var) {
            Some(v) => text::same(v.as_str(), "true") || text::same(v.as_str(), "1"),
            None => false,
        },
        CiCheckVar::Present(var) => vars::get(env, var).is_some(),
        CiCheckVar::Equals(var, expected) => match vars::get(env, var) {
            Some(v) => text::same(v.as_str(), expected),
            None => false,
        },
    }
}

/// Whether the environment is that of a provider of continuous integration.
pub fn is_ci(env: &Vec<(String, String)>) -> (r: bool)
    ensures
        r == is_ci_env(env@),
{
    matches_ci_var(env, &CiCheckVar::Truthy("CI"))
        || matches_ci_var(env, &CiCheckVar::Truthy("APPVEYOR"))
        || matches_ci_var(env, &CiCheckVar::Present("BUILD_BUILDURI"))
        || matches_ci_var(env, &CiCheckVar::Present("bamboo_agentId"))
        || matches_ci_var(env, &CiCheckVar::Present("BITBUCKET_BUILD_NUMBER"))
        || matches_ci_var(env, &CiCheckVar::Truthy("BITRISE_IO"))
        || matches_ci_var(env, &CiCheckVar::Present("BUDDY_WORKSPACE_ID"))
        || matches_ci_var(env, &CiCheckVar::Truthy("BUILDKITE"))
        || matches_ci_var(env, &CiCheckVar::Equals("CF_PAGES", "1"))
        || matches_ci_var(env, &CiCheckVar::Present("CF_BUILD_ID"))
        || matches_ci_var(env, &CiCheckVar::Truthy("CIRCLECI"))
        || matches_ci_var(env, &CiCheckVar::Truthy("CIRRUS_CI"))
        || matches_ci_var(env, &CiCheckVar::Equals("CI_NAME", "codeship"))
        || matches_ci_var(env, &CiCheckVar::Present("CODEBUILD_BUILD_ID"))
        || matches_ci_var(env, &CiCheckVar::Present("DISTELLI_APPNAME"))
        || matches_ci_var(env, &CiCheckVar::Truthy("DRONE"))
        || matches_ci_var(env, &CiCheckVar::Truthy("GITHUB_ACTIONS"))
        || matches_ci_var(env, &CiCheckVar::Truthy("GITLAB_CI"))
        || matches_ci_var(env, &CiCheckVar::Present("JB_SPACE_EXECUTION_NUMBER"))
        || matches_ci_var(env, &CiCheckVar::Present("JENKINS_URL"))
        || matches_ci_var(env, &CiCheckVar::Equals("NETLIFY", "true"))
        || matches_ci_var(env, &CiCheckVar::Present("NOW_GITHUB_DEPLOYMENT"))
        || matches_ci_var(env, &CiCheckVar::Truthy("SAILCI"))
        || matches_ci_var(env, &CiCheckVar::Truthy("SCREWDRIVER"))
        || matches_ci_var(env, &CiCheckVar::Truthy("SCRUTINIZER"))
        || matches_ci_var(env, &CiCheckVar::Truthy("SEMAPHORE"))
        || matches_ci_var(env, &CiCheckVar::Truthy("SHIPPABLE"))
        || matches_ci_var(env, &CiCheckVar::Present("TEAMCITY_VERSION"))
        || matches_ci_var(env, &CiCheckVar::Truthy("TRAVIS"))
        || matches_ci_var(env, &CiCheckVar::Truthy("VELA"))
        || matches_ci_var(env, &CiCheckVar::Truthy("VERCEL"))
        || matches_ci_var(env, &CiCheckVar::Present("WERCKER_MAIN_PIPELINE_STARTED"))
}

/// With `CI` set to `true` or `1`, whatever else is set, it is continuous
/// integration.
pub proof fn law_generic_variable_is_enough(env: Seq<(String, String)>)
    requires
        vars::value_of(env, "CI"@) == Some("true"@) || vars::value_of(env, "CI"@) == Some("1"@),
    ensures
        is_ci_env(env),
{
}

/// Setting more variables does not hide continuous integration.
pub proof fn law_more_variables_hide_nothing(
    env: Seq<(String, String)>,
    more: Seq<(String, String)>,
)
    requires
        is_ci_env(env),
        forall|var: Seq<char>|
            vars::value_of(env, var) is Some ==> #[trigger] vars::value_of(more, var)
                == vars::value_of(env, var),
    ensures
        is_ci_env(more),
{
}

/// Continuous integration is told by each of these variables alone, whatever else is set:
/// some have to be `true` or `1`, some to be set to whatever value, and some to have one
/// value.
pub proof fn law_one_variable_is_enough(env: Seq<(String, String)>, var: Seq<char>)
    ensures
        ({
            let flags = {
                ||| var == "CI"@
                ||| var == "APPVEYOR"@
                ||| var == "BITRISE_IO"@
                ||| var == "BUILDKITE"@
                ||| var == "CIRCLECI"@
                ||| var == "CIRRUS_CI"@
                ||| var == "DRONE"@
                ||| var == "GITHUB_ACTIONS"@
                ||| var == "GITLAB_CI"@
                ||| var == "SAILCI"@
                ||| var == "SCREWDRIVER"@
                ||| var == "SCRUTINIZER"@
                ||| var == "SEMAPHORE"@
                ||| var == "SHIPPABLE"@
                ||| var == "TRAVIS"@
                ||| var == "VELA"@
                ||| var == "VERCEL"@
            };
            let marks = {
                ||| var == "BUILD_BUILDURI"@
                ||| var == "bamboo_agentId"@
                ||| var == "BITBUCKET_BUILD_NUMBER"@
                ||| var == "BUDDY_WORKSPACE_ID"@
                ||| var == "CF_BUILD_ID"@
                ||| var == "CODEBUILD_BUILD_ID"@
                ||| var == "DISTELLI_APPNAME"@
                ||| var == "JB_SPACE_EXECUTION_NUMBER"@
                ||| var == "JENKINS_URL"@
                ||| var == "NOW_GITHUB_DEPLOYMENT"@
                ||| var == "TEAMCITY_VERSION"@
                ||| var == "WERCKER_MAIN_PIPELINE_STARTED"@
            };
            let value = vars::value_of(env, var);
            &&& flags && (value == Some("true"@) || value == Some("1"@)) ==> is_ci_env(env)
            &&& marks && value is Some ==> is_ci_env(env)
            &&& var == "CF_PAGES"@ && value == Some("1"@) ==> is_ci_env(env)
            &&& var == "CI_NAME"@ && value == Some("codeship"@) ==> is_ci_env(env)
            &&& var == "NETLIFY"@ && value == Some("true"@) ==> is_ci_env(env)
        }),
{
}

/// Without any of these variables it is no continuous integration.
pub proof fn law_no_other_variable_counts(env: Seq<(String, String)>)
    requires
        forall|var: Seq<char>|
            ({
                ||| var == "CI"@
                ||| var == "APPVEYOR"@
                ||| var == "BITRISE_IO"@
                ||| var == "BUILDKITE"@
                ||| var == "CIRCLECI"@
                ||| var == "CIRRUS_CI"@
                ||| var == "DRONE"@
                ||| var == "GITHUB_ACTIONS"@
                ||| var == "GITLAB_CI"@
                ||| var == "SAILCI"@
                ||| var == "SCREWDRIVER"@
                ||| var == "SCRUTINIZER"@
                ||| var == "SEMAPHORE"@
                ||| var == "SHIPPABLE"@
                ||| var == "TRAVIS"@
                ||| var == "VELA"@
                ||| var == "VERCEL"@
            }) ==> #[trigger] vars::value_of(env, var) != Some("true"@) && vars::value_of(env, var)
                != Some("1"@),
        forall|var: Seq<char>|
            ({
                ||| var == "BUILD_BUILDURI"@
                ||| var == "bamboo_agentId"@
                ||| var == "BITBUCKET_BUILD_NUMBER"@
                ||| var == "BUDDY_WORKSPACE_ID"@
                ||| var == "CF_BUILD_ID"@
                ||| var == "CODEBUILD_BUILD_ID"@
                ||| var == "DISTELLI_APPNAME"@
                ||| var == "JB_SPACE_EXECUTION_NUMBER"@
                ||| var == "JENKINS_URL"@
                ||| var == "NOW_GITHUB_DEPLOYMENT"@
                ||| var == "TEAMCITY_VERSION"@
                ||| var == "WERCKER_MAIN_PIPELINE_STARTED"@
            }) ==> #[trigger] vars::value_of(env, var) is None,
        vars::value_of(env, "CF_PAGES"@) != Some("1"@),
        vars::value_of(env, "CI_NAME"@) != Some("codeship"@),
        vars::value_of(env, "NETLIFY"@) != Some("true"@),
    ensures
        !is_ci_env(env),
{
}

} // verus!
