//! Kubeconfigs from a cloud CLI: the command that writes the cluster's entries, and what the
//! import dialog shows and checks.

use crate::text::{self, cat, cat3, cat4, same, trim};
use vstd::prelude::*;

verus! {

#[derive(Clone, Copy, Debug, PartialEq, Eq, Structural)]
pub enum Cloud {
    Eks,
    Gke,
    Aks,
}

/// A field of the import dialog.
#[derive(Clone, Copy, Debug)]
pub struct CloudField {
    pub id: &'static str,
    pub label: &'static str,
    pub placeholder: &'static str,
    pub required: bool,
}

/// A field as a mathematical value.
pub struct FieldView {
    pub id: Seq<char>,
    pub label: Seq<char>,
    pub placeholder: Seq<char>,
    pub required: bool,
}

impl View for CloudField {
    type V = FieldView;

    open spec fn view(&self) -> FieldView {
        FieldView {
            id: self.id@,
            label: self.label@,
            placeholder: self.placeholder@,
            required: self.required,
        }
    }
}

pub open spec fn fields_view(v: Seq<CloudField>) -> Seq<FieldView> {
    Seq::new(v.len(), |i: int| v[i]@)
}

pub open spec fn field_of(
    id: Seq<char>,
    label: Seq<char>,
    placeholder: Seq<char>,
    required: bool,
) -> FieldView {
    FieldView { id, label, placeholder, required }
}

/// The fields of a cloud: the cluster's name, where it is, and whose it is (optional).
pub open spec fn cloud_fields(cloud: Cloud) -> Seq<FieldView> {
    match cloud {
        Cloud::Eks => seq![
            field_of("name"@, "Cluster name"@, "prod-eu"@, true),
            field_of("region"@, "Region"@, "eu-west-1"@, true),
            field_of("profile"@, "Profile"@, "default (optional)"@, false),
        ],
        Cloud::Gke => seq![
            field_of("name"@, "Cluster name"@, "analytics"@, true),
            field_of("location"@, "Location"@, "europe-west4"@, true),
            field_of("project"@, "Project"@, "the gcloud default (optional)"@, false),
        ],
        Cloud::Aks => seq![
            field_of("name"@, "Cluster name"@, "aks-prod"@, true),
            field_of("group"@, "Resource group"@, "rg-prod"@, true),
            field_of("subscription"@, "Subscription"@, "the az default (optional)"@, false),
        ],
    }
}

fn field(
    id: &'static str,
    label: &'static str,
    placeholder: &'static str,
    required: bool,
) -> (r: CloudField)
    ensures
        r@ == field_of(id@, label@, placeholder@, required),
{
    CloudField { id, label, placeholder, required }
}

pub open spec fn program_of(cloud: Cloud) -> Seq<char> {
    match cloud {
        Cloud::Eks => "aws"@,
        Cloud::Gke => "gcloud"@,
        Cloud::Aks => "az"@,
    }
}

/// The key under which the dialog keeps a field's input: every cloud has a name of its own.
pub open spec fn input_key(cloud: Cloud, id: Seq<char>) -> Seq<char> {
    if id == "name"@ {
        match cloud {
            Cloud::Eks => "eks-name"@,
            Cloud::Gke => "gke-name"@,
            Cloud::Aks => "aks-name"@,
        }
    } else {
        id
    }
}

impl Cloud {
    pub const ALL: [Cloud; 3] = [Cloud::Eks, Cloud::Gke, Cloud::Aks];

    pub fn label(self) -> (r: &'static str)
        ensures
            r@ == match self {
                Cloud::Eks => "AWS EKS"@,
                Cloud::Gke => "Google GKE"@,
                Cloud::Aks => "Azure AKS"@,
            },
    {
        match self {
            Cloud::Eks => "AWS EKS",
            Cloud::Gke => "Google GKE",
            Cloud::Aks => "Azure AKS",
        }
    }

    pub fn program(self) -> (r: &'static str)
        ensures
            r@ == program_of(self),
    {
        match self {
            Cloud::Eks => "aws",
            Cloud::Gke => "gcloud",
            Cloud::Aks => "az",
        }
    }

    /// The fields of the dialog.
    pub fn fields(self) -> (r: Vec<CloudField>)
        ensures
            fields_view(r@) == cloud_fields(self),
    {
        let v: Vec<CloudField> = match self {
            Cloud::Eks => vec![
                field("name", "Cluster name", "prod-eu", true),
                field("region", "Region", "eu-west-1", true),
                field("profile", "Profile", "default (optional)", false),
            ],
            Cloud::Gke => vec![
                field("name", "Cluster name", "analytics", true),
                field("location", "Location", "europe-west4", true),
                field("project", "Project", "the gcloud default (optional)", false),
            ],
            Cloud::Aks => vec![
                field("name", "Cluster name", "aks-prod", true),
                field("group", "Resource group", "rg-prod", true),
                field("subscription", "Subscription", "the az default (optional)", false),
            ],
        };
        assert(fields_view(v@) =~= cloud_fields(self));
        v
    }

    /// The key under which the dialog keeps a field's input.
    pub fn key(self, id: &'static str) -> (r: &'static str)
        ensures
            r@ == input_key(self, id@),
    {
        if same(id, "name") {
            match self {
                Cloud::Eks => "eks-name",
                Cloud::Gke => "gke-name",
                Cloud::Aks => "aks-name",
            }
        } else {
            id
        }
    }
}

/// What was entered in a field: without the space around it, none if nothing is left.
pub open spec fn entered(values: Seq<(String, String)>, id: Seq<char>) -> Option<Seq<char>>
    decreases values.len(),
{
    if values.len() == 0 {
        None
    } else if values[0].0@ == id {
        if text::trimmed(values[0].1@).len() == 0 {
            None
        } else {
            Some(text::trimmed(values[0].1@))
        }
    } else {
        entered(values.drop_first(), id)
    }
}

pub open spec fn entered_or_empty(values: Seq<(String, String)>, id: Seq<char>) -> Seq<char> {
    match entered(values, id) {
        Some(s) => s,
        None => seq![],
    }
}

/// An optional argument: its flag and what was entered, if something was.
pub open spec fn optional_argument(
    values: Seq<(String, String)>,
    id: Seq<char>,
    flag: Seq<char>,
) -> Seq<Seq<char>> {
    match entered(values, id) {
        Some(s) => seq![flag, s],
        None => seq![],
    }
}

/// The arguments of the command.
pub open spec fn cloud_args(
    cloud: Cloud,
    values: Seq<(String, String)>,
    file: Seq<char>,
) -> Seq<Seq<char>> {
    match cloud {
        Cloud::Eks => seq![
            "eks"@,
            "update-kubeconfig"@,
            "--name"@,
            entered_or_empty(values, "name"@),
            "--region"@,
            entered_or_empty(values, "region"@),
            "--kubeconfig"@,
            file,
        ] + optional_argument(values, "profile"@, "--profile"@),
        Cloud::Gke => seq![
            "container"@,
            "clusters"@,
            "get-credentials"@,
            entered_or_empty(values, "name"@),
            "--location"@,
            entered_or_empty(values, "location"@),
        ] + optional_argument(values, "project"@, "--project"@),
        Cloud::Aks => seq![
            "aks"@,
            "get-credentials"@,
            "--name"@,
            entered_or_empty(values, "name"@),
            "--resource-group"@,
            entered_or_empty(values, "group"@),
            "--file"@,
            file,
        ] + optional_argument(values, "subscription"@, "--subscription"@),
    }
}

/// The environment of the command.
pub open spec fn cloud_env(cloud: Cloud, file: Seq<char>) -> Seq<(Seq<char>, Seq<char>)> {
    if cloud == Cloud::Gke {
        seq![("KUBECONFIG"@, file)]
    } else {
        seq![]
    }
}

/// A command: the program, its arguments and its environment.
#[derive(Debug, PartialEq, Eq)]
pub struct CloudCommand {
    pub program: String,
    pub args: Vec<String>,
    pub env: Vec<(String, String)>,
}

fn get(values: &Vec<(String, String)>, id: &str) -> (r: Option<String>)
    ensures
        text::text_of(r) == entered(values@, id@),
{
    let mut i: usize = 0;
    assert(values@.skip(0) =~= values@);
    while i < values.len()
        invariant
            i <= values@.len(),
            entered(values@, id@) == entered(values@.skip(i as int), id@),
        decreases values@.len() - i,
    {
        assert(values@.skip(i as int).drop_first() =~= values@.skip(i + 1));
        if same(values[i].0.as_str(), id) {
            let s: String = trim(values[i].1.as_str());
            return if s.as_str().is_empty() {
                None
            } else {
                Some(s)
            };
        }
        i += 1;
    }
    None
}

fn get_or_empty(values: &Vec<(String, String)>, id: &str) -> (r: String)
    ensures
        r@ == entered_or_empty(values@, id@),
{
    match get(values, id) {
        Some(s) => s,
        None => {
            let none: String = String::new();
            assert(none@ =~= Seq::empty());
            none
        },
    }
}

fn push_optional(args: &mut Vec<String>, values: &Vec<(String, String)>, id: &str, flag: &str)
    ensures
        text::texts(final(args)@) == text::texts(old(args)@) + optional_argument(
            values@,
            id@,
            flag@,
        ),
{
    let ghost before = text::texts(args@);
    if let Some(s) = get(values, id) {
        args.push(flag.to_string());
        args.push(s);
    }
    assert(text::texts(args@) =~= before + optional_argument(values@, id@, flag@));
}

/// The command that writes the cluster's entries into `file`, like the CLI's own
/// get-credentials.
pub fn cloud_command(cloud: Cloud, values: &Vec<(String, String)>, file: &str) -> (r: CloudCommand)
    ensures
        r.program@ == program_of(cloud),
        text::texts(r.args@) == cloud_args(cloud, values@, file@),
        crate::exec::pair_texts(r.env@) == cloud_env(cloud, file@),
{
    let name: String = get_or_empty(values, "name");
    let mut env: Vec<(String, String)> = Vec::new();
    let mut args: Vec<String> = match cloud {
        Cloud::Eks => vec![
            "eks".to_string(),
            "update-kubeconfig".to_string(),
            "--name".to_string(),
            name,
            "--region".to_string(),
            get_or_empty(values, "region"),
            "--kubeconfig".to_string(),
            file.to_string(),
        ],
        Cloud::Gke => vec![
            "container".to_string(),
            "clusters".to_string(),
            "get-credentials".to_string(),
            name,
            "--location".to_string(),
            get_or_empty(values, "location"),
        ],
        Cloud::Aks => vec![
            "aks".to_string(),
            "get-credentials".to_string(),
            "--name".to_string(),
            name,
            "--resource-group".to_string(),
            get_or_empty(values, "group"),
            "--file".to_string(),
            file.to_string(),
        ],
    };
    match cloud {
        Cloud::Eks => push_optional(&mut args, values, "profile", "--profile"),
        Cloud::Gke => {
            push_optional(&mut args, values, "project", "--project");
            env.push(("KUBECONFIG".to_string(), file.to_string()));
        },
        Cloud::Aks => push_optional(&mut args, values, "subscription", "--subscription"),
    }
    assert(text::texts(args@) =~= cloud_args(cloud, values@, file@));
    assert(crate::exec::pair_texts(env@) =~= cloud_env(cloud, file@));
    CloudCommand { program: cloud.program().to_string(), args, env }
}

/// The variables of an environment, each with a space behind it.
pub open spec fn env_text(env: Seq<(Seq<char>, Seq<char>)>) -> Seq<char>
    decreases env.len(),
{
    if env.len() == 0 {
        seq![]
    } else {
        env_text(env.drop_last()) + env.last().0 + "="@ + env.last().1 + " "@
    }
}

/// The command as it is shown before it runs.
pub fn preview(cloud: Cloud, values: &Vec<(String, String)>) -> (r: String)
    ensures
        r@ == env_text(cloud_env(cloud, "<temp>/config"@)) + program_of(cloud) + " "@
            + text::joined(cloud_args(cloud, values@, "<temp>/config"@), " "@),
{
    let command: CloudCommand = cloud_command(cloud, values, "<temp>/config");
    let ghost all = crate::exec::pair_texts(command.env@);
    let mut shown: String = String::new();
    let mut i: usize = 0;
    assert(all.take(0) =~= Seq::empty());
    assert(shown@ =~= Seq::empty());
    while i < command.env.len()
        invariant
            i <= command.env@.len(),
            all == crate::exec::pair_texts(command.env@),
            shown@ == env_text(all.take(i as int)),
        decreases command.env@.len() - i,
    {
        assert(all.take(i + 1).drop_last() =~= all.take(i as int));
        shown = text::cat5(
            shown.as_str(),
            command.env[i].0.as_str(),
            "=",
            command.env[i].1.as_str(),
            " ",
        );
        i += 1;
    }
    assert(all.take(i as int) =~= all);
    cat4(
        shown.as_str(),
        command.program.as_str(),
        " ",
        text::join(&command.args, " ").as_str(),
    )
}

/// Whether every required field has something in it.
pub open spec fn filled_in(cloud: Cloud, values: Seq<(String, String)>) -> bool {
    forall|i: int|
        0 <= i < cloud_fields(cloud).len() && (#[trigger] cloud_fields(cloud)[i]).required
            ==> entered(values, cloud_fields(cloud)[i].id) is Some
}

/// Why the command can't run yet.
pub fn missing_fields(cloud: Cloud, values: &Vec<(String, String)>) -> (r: Option<&'static str>)
    ensures
        match r {
            None => filled_in(cloud, values@),
            Some(e) => !filled_in(cloud, values@) && e@ == "Fill in the required fields."@,
        },
{
    let fields: Vec<CloudField> = cloud.fields();
    let ghost all = cloud_fields(cloud);
    let mut i: usize = 0;
    while i < fields.len()
        invariant
            i <= fields@.len(),
            all == cloud_fields(cloud),
            all == fields_view(fields@),
            forall|j: int|
                0 <= j < i && (#[trigger] all[j]).required ==> entered(values@, all[j].id) is Some,
        decreases fields@.len() - i,
    {
        assert(all[i as int] == fields@[i as int]@);
        if fields[i].required && get(values, fields[i].id).is_none() {
            return Some("Fill in the required fields.");
        }
        i += 1;
    }
    None
}

/// How running the command went.
#[derive(Debug)]
pub enum CloudOutcome {
    NotInstalled,
    TimedOut,
    NotRun(String),
    /// It failed, with its stderr.
    Failed(Vec<u8>),
    /// It wrote no kubeconfig.
    NothingWritten(String),
}

/// Why there is no kubeconfig.
pub open spec fn cloud_error(program: Seq<char>, outcome: CloudOutcome) -> Seq<char> {
    match outcome {
        CloudOutcome::NotInstalled => "`"@ + program
            + "` isn't installed (or not in your login shell's PATH)"@,
        CloudOutcome::TimedOut => "`"@ + program + "` didn't finish within 3 minutes"@,
        CloudOutcome::NotRun(e) => "couldn't run `"@ + program + "`: "@ + e@,
        CloudOutcome::Failed(stderr) => "`"@ + program + "` failed: "@ + text::trimmed(
            crate::outside::utf8_lossy(stderr@),
        ),
        CloudOutcome::NothingWritten(e) => "`"@ + program + "` wrote no kubeconfig: "@ + e@,
    }
}

/// Why there is no kubeconfig.
pub fn explain(program: &str, outcome: &CloudOutcome) -> (r: String)
    ensures
        r@ == cloud_error(program@, *outcome),
{
    match outcome {
        CloudOutcome::NotInstalled => cat3(
            "`",
            program,
            "` isn't installed (or not in your login shell's PATH)",
        ),
        CloudOutcome::TimedOut => cat3("`", program, "` didn't finish within 3 minutes"),
        CloudOutcome::NotRun(e) => cat4("couldn't run `", program, "`: ", e.as_str()),
        CloudOutcome::Failed(stderr) => {
            let shown: String = crate::outside::lossy_text(stderr.as_slice());
            cat4("`", program, "` failed: ", trim(shown.as_str()).as_str())
        },
        CloudOutcome::NothingWritten(e) => cat4(
            "`",
            program,
            "` wrote no kubeconfig: ",
            e.as_str(),
        ),
    }
}

/// What the dialog shows.
#[derive(Debug)]
pub struct CloudDialog {
    /// The labels of the fields.
    pub rows: Vec<String>,
    pub preview: String,
    /// The CLI isn't installed.
    pub warning: Option<String>,
    pub run_label: &'static str,
    pub run_enabled: bool,
}

/// The label of a field's row.
pub open spec fn row_label(f: FieldView) -> Seq<char> {
    if f.required {
        f.label
    } else {
        f.label + " (optional)"@
    }
}

/// What the dialog shows. `installed` says whether the CLI was found, once that is known.
pub fn dialog(cloud: Cloud, values: &Vec<(String, String)>, installed: Option<bool>, busy: bool) -> (
    r: CloudDialog)
    ensures
        text::texts(r.rows@) == Seq::new(
            cloud_fields(cloud).len(),
            |i: int| row_label(cloud_fields(cloud)[i]),
        ),
        r.preview@ == env_text(cloud_env(cloud, "<temp>/config"@)) + program_of(cloud) + " "@
            + text::joined(cloud_args(cloud, values@, "<temp>/config"@), " "@),
        text::text_of(r.warning) == if installed == Some(false) {
            Some(
                "`"@ + program_of(cloud)
                    + "` isn't installed (or not in your login shell's PATH)."@,
            )
        } else {
            None
        },
        r.run_label@ == if busy {
            "Running…"@
        } else {
            "Get credentials"@
        },
        r.run_enabled == (!busy && installed != Some(false)),
{
    let missing: bool = match installed {
        Some(b) => !b,
        None => false,
    };
    let fields: Vec<CloudField> = cloud.fields();
    let ghost all = cloud_fields(cloud);
    let ghost wanted = Seq::new(all.len(), |i: int| row_label(all[i]));
    let mut rows: Vec<String> = Vec::new();
    let mut i: usize = 0;
    assert(text::texts(rows@) =~= wanted.take(0));
    while i < fields.len()
        invariant
            i <= fields@.len(),
            all == fields_view(fields@),
            wanted == Seq::new(all.len(), |i: int| row_label(all[i])),
            text::texts(rows@) == wanted.take(i as int),
        decreases fields@.len() - i,
    {
        broadcast use text::texts_push;

        assert(all[i as int] == fields@[i as int]@);
        rows.push(
            if fields[i].required {
                fields[i].label.to_string()
            } else {
                cat(fields[i].label, " (optional)")
            },
        );
        assert(wanted.take(i + 1) =~= wanted.take(i as int).push(wanted[i as int]));
        i += 1;
    }
    assert(wanted.take(i as int) =~= wanted);
    CloudDialog {
        rows,
        preview: preview(cloud, values),
        warning: if missing {
            Some(
                cat3(
                    "`",
                    cloud.program(),
                    "` isn't installed (or not in your login shell's PATH).",
                ),
            )
        } else {
            None
        },
        run_label: if busy {
            "Running…"
        } else {
            "Get credentials"
        },
        run_enabled: !busy && !missing,
    }
}

} // verus!
