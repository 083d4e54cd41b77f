//! What is asked of the command lines of cloud providers, and what plugins are read as.

use crate::cloud::{self, Cloud};
use crate::credentials;
use crate::exec::{self, ExecPreset};
use crate::json::{self, Fields, Json};
use crate::text;
use vstd::prelude::*;

verus! {

/// What was entered under an id, trimmed: of several the first.
pub open spec fn was_entered(
    values: Seq<(String, String)>,
    id: Seq<char>,
    value: Seq<char>,
) -> bool {
    exists|i: int|
        0 <= i < values.len() && (#[trigger] values[i]).0@ == id && text::trimmed(values[i].1@)
            == value && forall|j: int| 0 <= j < i ==> (#[trigger] values[j]).0@ != id
}

proof fn lemma_entered(values: Seq<(String, String)>, id: Seq<char>, i: int)
    requires
        0 <= i < values.len(),
        values[i].0@ == id,
        forall|j: int| 0 <= j < i ==> (#[trigger] values[j]).0@ != id,
    ensures
        cloud::entered(values, id) == if text::trimmed(values[i].1@).len() == 0 {
            None
        } else {
            Some(text::trimmed(values[i].1@))
        },
    decreases values.len(),
{
    if i > 0 {
        assert(values[0].0@ != id);
        let rest = values.drop_first();
        assert(rest[i - 1] == values[i]);
        assert forall|j: int| 0 <= j < i - 1 implies (#[trigger] rest[j]).0@ != id by {
            assert(rest[j] == values[j + 1]);
        }
        lemma_entered(rest, id, i - 1);
    }
}

proof fn lemma_was_entered(values: Seq<(String, String)>, id: Seq<char>, value: Seq<char>)
    requires
        was_entered(values, id, value),
        value.len() > 0,
    ensures
        cloud::entered(values, id) == Some(value),
{
    let i = choose|i: int|
        0 <= i < values.len() && (#[trigger] values[i]).0@ == id && text::trimmed(values[i].1@)
            == value && forall|j: int| 0 <= j < i ==> (#[trigger] values[j]).0@ != id;
    lemma_entered(values, id, i);
}

/// Whether an argument stands right behind a flag.
pub open spec fn flagged(args: Seq<Seq<char>>, flag: Seq<char>, value: Seq<char>) -> bool {
    exists|i: int|
        0 <= i < args.len() - 1 && #[trigger] args[i] == flag && args[i + 1] == value
}

/// The provider's command line is told the cluster and where it is, as they were entered, and to
/// write to the file that was made for it: with a flag, or, where it has none, by its environment.
/// So it never writes to the user's own kubeconfig.
pub proof fn cloud_commands_write_to_the_given_file(
    values: Seq<(String, String)>,
    file: Seq<char>,
    name: Seq<char>,
    place: Seq<char>,
)
    requires
        was_entered(values, "name"@, name),
        name.len() > 0,
        place.len() > 0,
    ensures
        was_entered(values, "region"@, place) ==> {
            let args = cloud::cloud_args(Cloud::Eks, values, file);
            &&& flagged(args, "--name"@, name)
            &&& flagged(args, "--region"@, place)
            &&& flagged(args, "--kubeconfig"@, file)
            &&& args[0] == "eks"@ && args[1] == "update-kubeconfig"@
        },
        was_entered(values, "location"@, place) ==> {
            let args = cloud::cloud_args(Cloud::Gke, values, file);
            &&& flagged(args, "get-credentials"@, name)
            &&& flagged(args, "--location"@, place)
            &&& args[0] == "container"@ && args[1] == "clusters"@
            &&& cloud::cloud_env(Cloud::Gke, file) == seq![("KUBECONFIG"@, file)]
        },
        was_entered(values, "group"@, place) ==> {
            let args = cloud::cloud_args(Cloud::Aks, values, file);
            &&& flagged(args, "--name"@, name)
            &&& flagged(args, "--resource-group"@, place)
            &&& flagged(args, "--file"@, file)
            &&& args[0] == "aks"@ && args[1] == "get-credentials"@
        },
{
    lemma_was_entered(values, "name"@, name);
    if was_entered(values, "region"@, place) {
        lemma_was_entered(values, "region"@, place);
        let args = cloud::cloud_args(Cloud::Eks, values, file);
        assert(args[2] == "--name"@ && args[3] == name);
        assert(args[4] == "--region"@ && args[5] == place);
        assert(args[6] == "--kubeconfig"@ && args[7] == file);
    }
    if was_entered(values, "location"@, place) {
        lemma_was_entered(values, "location"@, place);
        let args = cloud::cloud_args(Cloud::Gke, values, file);
        assert(args[2] == "get-credentials"@ && args[3] == name);
        assert(args[4] == "--location"@ && args[5] == place);
    }
    if was_entered(values, "group"@, place) {
        lemma_was_entered(values, "group"@, place);
        let args = cloud::cloud_args(Cloud::Aks, values, file);
        assert(args[2] == "--name"@ && args[3] == name);
        assert(args[4] == "--resource-group"@ && args[5] == place);
        assert(args[6] == "--file"@ && args[7] == file);
    }
}

/// What may be left out is passed on exactly if it was entered.
pub proof fn entered_options_are_passed_on(
    cloud: Cloud,
    values: Seq<(String, String)>,
    file: Seq<char>,
    value: Seq<char>,
)
    requires
        value.len() > 0,
        was_entered(
            values,
            match cloud {
                Cloud::Eks => "profile"@,
                Cloud::Gke => "project"@,
                Cloud::Aks => "subscription"@,
            },
            value,
        ),
    ensures
        flagged(
            cloud::cloud_args(cloud, values, file),
            match cloud {
                Cloud::Eks => "--profile"@,
                Cloud::Gke => "--project"@,
                Cloud::Aks => "--subscription"@,
            },
            value,
        ),
{
    lemma_was_entered(
        values,
        match cloud {
            Cloud::Eks => "profile"@,
            Cloud::Gke => "project"@,
            Cloud::Aks => "subscription"@,
        },
        value,
    );
    let args = cloud::cloud_args(cloud, values, file);
    let n = args.len() as int;
    assert(args[n - 1] == value);
    assert(args[n - 2] == match cloud {
        Cloud::Eks => "--profile"@,
        Cloud::Gke => "--project"@,
        Cloud::Aks => "--subscription"@,
    });
}

/// A provider's form is filled in exactly if the name of the cluster and where it is were entered.
pub proof fn names_and_places_are_required(values: Seq<(String, String)>)
    ensures
        cloud::filled_in(Cloud::Eks, values) <==> cloud::entered(values, "name"@) is Some
            && cloud::entered(values, "region"@) is Some,
        cloud::filled_in(Cloud::Gke, values) <==> cloud::entered(values, "name"@) is Some
            && cloud::entered(values, "location"@) is Some,
        cloud::filled_in(Cloud::Aks, values) <==> cloud::entered(values, "name"@) is Some
            && cloud::entered(values, "group"@) is Some,
        cloud::program_of(Cloud::Eks) == "aws"@,
        cloud::program_of(Cloud::Gke) == "gcloud"@,
        cloud::program_of(Cloud::Aks) == "az"@,
{
    let e = cloud::cloud_fields(Cloud::Eks);
    assert(e[0].id == "name"@ && e[0].required);
    assert(e[1].id == "region"@ && e[1].required);
    assert(!e[2].required);
    let g = cloud::cloud_fields(Cloud::Gke);
    assert(g[0].id == "name"@ && g[0].required);
    assert(g[1].id == "location"@ && g[1].required);
    assert(!g[2].required);
    let a = cloud::cloud_fields(Cloud::Aks);
    assert(a[0].id == "name"@ && a[0].required);
    assert(a[1].id == "group"@ && a[1].required);
    assert(!a[2].required);
}

// ----- Plugins -----

/// A plugin is what its block says: the command, the arguments in their order, and the variables
/// with their values. A block without a command is none.
pub proof fn plugins_are_what_their_block_says(
    block: Fields,
    args: Seq<Json>,
    env: Seq<Json>,
    command: Seq<char>,
)
    requires
        json::field(block, "command"@) == Some(Json::Str(command)),
        json::field(block, "args"@) == Some(Json::Array(args)),
        json::field(block, "env"@) == Some(Json::Array(env)),
    ensures
        ({
            let p = exec::plugin_of(Json::Object(block));
            &&& p is Some
            &&& p->Some_0.command == command
            &&& p->Some_0.args.len() == args.len()
            &&& forall|i: int|
                0 <= i < args.len() ==> (#[trigger] args[i] matches Json::Str(s)
                    ==> p->Some_0.args[i] == s)
            &&& p->Some_0.env.len() == env.len()
            &&& forall|i: int|
                0 <= i < env.len() ==> {
                    let variable = #[trigger] p->Some_0.env[i];
                    &&& json::text_at(env[i], "name"@) matches Some(name) ==> variable.0 == name
                    &&& json::text_at(env[i], "value"@) matches Some(value) ==> variable.1 == value
                }
            &&& p->Some_0.provide_cluster_info <==> json::field(block, "provideClusterInfo"@)
                == Some(Json::Bool(true))
        }),
        json::text_at(Json::Object(block), "apiVersion"@) matches Some(v) ==> exec::plugin_of(
            Json::Object(block),
        )->Some_0.api_version == v,
        json::text_at(Json::Object(block), "interactiveMode"@) matches Some(v) ==> exec::plugin_of(
            Json::Object(block),
        )->Some_0.interactive_mode == v,
{
}

/// A block without a command is no plugin.
pub proof fn plugins_have_commands(block: Fields)
    ensures
        exec::plugin_of(Json::Object(block)) is Some <==> json::field(block, "command"@) matches Some(
            Json::Str(_),
        ),
{
}

/// The plugin of a context is that of the user it refers to.
pub proof fn a_contexts_plugin_is_its_users(
    d: Json,
    context: Seq<char>,
    user: Seq<char>,
    b: Fields,
    block: Json,
)
    requires
        crate::document::context_reference(d, context, crate::model::Kind::User) == Some(user),
        crate::document::body(d, crate::model::Kind::User, user) == Some(b),
        json::field(b, "exec"@) == Some(block),
    ensures
        credentials::exec_block(d, context) == Some((user, block)),
{
}

/// The preset plugins are plugins: each has the command of its provider and an API version that
/// kubectl still knows.
pub proof fn presets_are_plugins(preset: ExecPreset)
    ensures
        ({
            let p = exec::plugin_of(exec::preset_block(preset));
            &&& p is Some
            &&& p->Some_0.command == match preset {
                ExecPreset::Eks => "aws"@,
                ExecPreset::Gke => "gke-gcloud-auth-plugin"@,
                ExecPreset::AksKubelogin => "kubelogin"@,
                ExecPreset::KubeloginOidc => "kubectl"@,
            }
            &&& p->Some_0.api_version == "client.authentication.k8s.io/v1beta1"@
            &&& preset == ExecPreset::Eks ==> p->Some_0.args.len() == 8 && p->Some_0.args[3]
                == "get-token"@
            &&& preset == ExecPreset::Gke ==> p->Some_0.provide_cluster_info
        }),
{
    reveal_strlit("apiVersion");
    reveal_strlit("command");
    reveal_strlit("args");
    reveal_strlit("installHint");
    reveal_strlit("provideClusterInfo");
    assert("apiVersion"@.len() == 10 && "command"@.len() == 7 && "args"@.len() == 4);
    assert("installHint"@.len() == 11 && "provideClusterInfo"@.len() == 18);
    let o = exec::preset_block(preset)->Object_0;
    json::lemma_key_index_is(o, "apiVersion"@, 0);
    json::lemma_key_index_is(o, "command"@, 1);
    if preset == ExecPreset::Gke {
        json::lemma_key_index_is(o, "provideClusterInfo"@, 3);
    } else {
        json::lemma_key_index_is(o, "args"@, 2);
    }
}

} // verus!
