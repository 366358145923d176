//! The message to the team.
use vstd::prelude::*;

use crate::json;
use crate::json::quote;
use crate::text;

verus! {

/// The colour of a status.
pub open spec fn color(status: Seq<char>) -> Seq<char> {
    if status == "started"@ {
        "0078D4"@
    } else if status == "success"@ {
        "00FF00"@
    } else if status == "failed"@ {
        "FF0000"@
    } else {
        "CCCCCC"@
    }
}

/// The colour of a status.
pub fn color_of(status: &str) -> (r: String)
    ensures
        r@ == color(status@),
{
    if text::same(status, "started") {
        text::owned("0078D4")
    } else if text::same(status, "success") {
        text::owned("00FF00")
    } else if text::same(status, "failed") {
        text::owned("FF0000")
    } else {
        text::owned("CCCCCC")
    }
}

/// The title of a message.
pub open spec fn title(status: Seq<char>, project: Seq<char>, env: Seq<char>) -> Seq<char> {
    "Deployment "@ + status + " - "@ + project + " ["@ + env + "]"@
}

/// One line of a message, as JSON.
pub open spec fn fact(name: Seq<char>, value: Seq<char>) -> Seq<char> {
    "{\"name\":"@ + json::json_quoted(name) + ",\"value\":"@ + json::json_quoted(value) + "}"@
}

fn fact_of(name: &str, value: &str) -> (r: String)
    ensures
        r@ == fact(name@, value@),
{
    let mut r = text::owned("{\"name\":");
    r.append(quote(name).as_str());
    r.append(",\"value\":");
    r.append(quote(value).as_str());
    r.append("}");
    r
}

/// The body of a message, as JSON with its keys in order.
pub open spec fn body(
    project: Seq<char>,
    env: Seq<char>,
    release: Seq<char>,
    status: Seq<char>,
    changelog: Seq<char>,
) -> Seq<char> {
    "{\"@context\":\"http://schema.org/extensions\",\"@type\":\"MessageCard\",\"sections\":[{\"activityTitle\":"@
        + json::json_quoted(title(status, project, env)) + ",\"facts\":["@ + fact(
        "Project"@,
        project,
    ) + ","@ + fact("Environment"@, env) + ","@ + fact("Release"@, release) + ","@ + fact(
        "Status"@,
        status,
    ) + "],\"text\":"@ + json::json_quoted(changelog) + "}],\"summary\":"@ + json::json_quoted(
        title(status, project, env),
    ) + ",\"themeColor\":"@ + json::json_quoted(color(status)) + "}"@
}

/// The body of the message that tells the team of a deployment.
pub fn send_teams_notification(
    project_name: &str,
    env_name: &str,
    release: &str,
    status: &str,
    changelog: &str,
) -> (r: String)
    ensures
        r@ == body(project_name@, env_name@, release@, status@, changelog@),
{
    let mut t = text::owned("Deployment ");
    t.append(status);
    t.append(" - ");
    t.append(project_name);
    t.append(" [");
    t.append(env_name);
    t.append("]");
    let shown = quote(t.as_str());
    let mut r = text::owned(
        "{\"@context\":\"http://schema.org/extensions\",\"@type\":\"MessageCard\",\"sections\":[{\"activityTitle\":",
    );
    r.append(shown.as_str());
    r.append(",\"facts\":[");
    r.append(fact_of("Project", project_name).as_str());
    r.append(",");
    r.append(fact_of("Environment", env_name).as_str());
    r.append(",");
    r.append(fact_of("Release", release).as_str());
    r.append(",");
    r.append(fact_of("Status", status).as_str());
    r.append("],\"text\":");
    r.append(quote(changelog).as_str());
    r.append("}],\"summary\":");
    r.append(shown.as_str());
    r.append(",\"themeColor\":");
    r.append(quote(color_of(status).as_str()).as_str());
    r.append("}");
    r
}

} // verus!
