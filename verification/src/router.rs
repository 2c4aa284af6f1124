//! The router daemon's command line: the plugins it names, and the settings it gives the
//! router.
use vstd::prelude::*;
use crate::text::{chars_of, join_with, owned, push_char, push_str, same_text, seq_join,
    starts_with_text, string_of, strings_view};

verus! {

/// The plugins named on a command line: the argument after each `-P` or `--plugin`, and the
/// text after each `--plugin=`, in order. A final `-P` or `--plugin` names nothing.
pub open spec fn plugins_named(args: Seq<Seq<char>>) -> Seq<Seq<char>>
    decreases args.len(),
{
    if args.len() == 0 {
        Seq::empty()
    } else if args[0] == "-P"@ || args[0] == "--plugin"@ {
        if args.len() >= 2 {
            seq![args[1]] + plugins_named(args.skip(2))
        } else {
            Seq::empty()
        }
    } else if "--plugin="@.is_prefix_of(args[0]) {
        seq![args[0].skip(9)] + plugins_named(args.drop_first())
    } else {
        plugins_named(args.drop_first())
    }
}

/// Whether `a` is a flag that takes the next argument as a plugin's name.
pub open spec fn is_plugin_flag(a: Seq<char>) -> bool {
    a == "-P"@ || a == "--plugin"@
}

/// An argument that is neither `-P` nor `--plugin` and does not start with `--plugin=` names
/// no plugin and takes no argument with it: inserted anywhere but right after `-P` or
/// `--plugin`, it leaves the plugins named unchanged.
pub proof fn lemma_other_argument_names_no_plugin(args: Seq<Seq<char>>, i: int, a: Seq<char>)
    requires
        0 <= i <= args.len(),
        !is_plugin_flag(a),
        !"--plugin="@.is_prefix_of(a),
        i == 0 || !is_plugin_flag(args[i - 1]),
    ensures
        plugins_named(args.insert(i, a)) == plugins_named(args),
    decreases args.len(),
{
    let t = args.insert(i, a);
    if i == 0 {
        assert(t[0] == a);
        assert(t.drop_first() =~= args);
    } else if is_plugin_flag(args[0]) {
        // `args[0]` takes `args[1]`, which comes before the insertion point.
        assert(i >= 2);
        assert(t[0] == args[0] && t[1] == args[1]);
        assert(t.skip(2) =~= args.skip(2).insert(i - 2, a));
        if i - 2 > 0 {
            assert(args.skip(2)[i - 3] == args[i - 1]);
        }
        lemma_other_argument_names_no_plugin(args.skip(2), i - 2, a);
    } else {
        assert(t[0] == args[0]);
        assert(t.drop_first() =~= args.drop_first().insert(i - 1, a));
        if i - 1 > 0 {
            assert(args.drop_first()[i - 2] == args[i - 1]);
        }
        lemma_other_argument_names_no_plugin(args.drop_first(), i - 1, a);
    }
}

/// `-P` or `--plugin` names the argument that follows it, whatever it is, and
/// `--plugin=name` names `name`; the arguments after them are read as they would be alone.
pub proof fn lemma_plugin_arguments(flag: Seq<char>, x: Seq<char>, name: Seq<char>, rest: Seq<Seq<char>>)
    requires
        is_plugin_flag(flag),
    ensures
        plugins_named(seq![flag, x] + rest) == seq![x] + plugins_named(rest),
        plugins_named(seq![flag]) == Seq::<Seq<char>>::empty(),
        plugins_named(seq!["--plugin="@ + name] + rest) == seq![name] + plugins_named(rest),
{
    reveal_strlit("--plugin=");
    reveal_strlit("-P");
    reveal_strlit("--plugin");
    let t = seq![flag, x] + rest;
    assert(t[0] == flag && t[1] == x);
    assert(t.skip(2) =~= rest);
    let a = "--plugin="@ + name;
    let u = seq![a] + rest;
    assert(u[0] == a);
    assert(a.subrange(0, 9) =~= "--plugin="@);
    assert(a != "-P"@ && a != "--plugin"@) by {
        assert(a.len() >= 9);
    }
    assert(a.skip(9) =~= name);
    assert(u.drop_first() =~= rest);
}

/// The plugins named on the command line `args`.
pub fn plugins_from_args(args: &Vec<String>) -> (plugins: Vec<String>)
    ensures
        strings_view(plugins@) == plugins_named(strings_view(args@)),
{
    proof {
        reveal_strlit("--plugin=");
    }
    let ghost all = strings_view(args@);
    let mut plugins: Vec<String> = Vec::new();
    let mut i: usize = 0;
    assert(all.skip(0) =~= all);
    while i < args.len()
        invariant
            i <= args.len(),
            all == strings_view(args@),
            strings_view(plugins@) + plugins_named(all.skip(i as int)) == plugins_named(all),
        decreases args.len() - i,
    {
        let ghost rest = all.skip(i as int);
        let ghost before = strings_view(plugins@);
        assert(rest[0] == args@[i as int]@);
        assert(rest.drop_first() =~= all.skip(i + 1));
        let arg = args[i].as_str();
        if same_text(arg, "-P") || same_text(arg, "--plugin") {
            if i + 1 < args.len() {
                plugins.push(args[i + 1].clone());
                assert(rest[1] == args@[i + 1]@);
                assert(rest.skip(2) =~= all.skip(i + 2));
                assert(strings_view(plugins@) =~= before.push(rest[1]));
                assert(strings_view(plugins@) + plugins_named(all.skip(i + 2)) =~= before + (seq![rest[1]] + plugins_named(rest.skip(2))));
                i = i + 2;
            } else {
                assert(strings_view(plugins@) + plugins_named(all.skip(args.len() as int)) =~= before + plugins_named(rest));
                i = args.len();
            }
        } else if starts_with_text(arg, "--plugin=") {
            proof {
                reveal_strlit("--plugin=");
            }
            let v = chars_of(arg);
            let name = string_of(&v, 9, v.len());
            assert(name@ =~= rest[0].skip(9));
            plugins.push(name);
            assert(strings_view(plugins@) =~= before.push(rest[0].skip(9)));
            assert(strings_view(plugins@) + plugins_named(all.skip(i + 1)) =~= before + (seq![rest[0].skip(9)] + plugins_named(rest.drop_first())));
            i = i + 1;
        } else {
            i = i + 1;
        }
    }
    assert(all.skip(args.len() as int) =~= Seq::<Seq<char>>::empty());
    assert(strings_view(plugins@) + Seq::<Seq<char>>::empty() =~= strings_view(plugins@));
    plugins
}

/// Whether some argument of `args` is `flag`.
pub open spec fn has_flag(args: Seq<Seq<char>>, flag: Seq<char>) -> bool {
    exists|i: int| 0 <= i < args.len() && args[i] == flag
}

/// Whether some argument of the command line `args` is `flag`.
pub fn flag_given(args: &Vec<String>, flag: &str) -> (b: bool)
    ensures
        b == has_flag(strings_view(args@), flag@),
{
    let ghost all = strings_view(args@);
    let mut i: usize = 0;
    while i < args.len()
        invariant
            i <= args.len(),
            all == strings_view(args@),
            forall|j: int| 0 <= j < i ==> all[j] != flag@,
        decreases args.len() - i,
    {
        if same_text(args[i].as_str(), flag) {
            assert(all[i as int] == flag@);
            return true;
        }
        i = i + 1;
    }
    false
}

/// The listener that the router opens when the command line names none.
pub open spec fn default_listener() -> Seq<char> {
    "tcp/0.0.0.0:7447"@
}

/// The peers that the router connects to: those of the command line, separated by commas,
/// followed by a comma and those of the configuration file when it names some.
pub open spec fn peers_setting(cli: Seq<Seq<char>>, config: Option<Seq<char>>) -> Seq<char> {
    match config {
        Some(c) => seq_join(cli, seq![',']) + seq![','] + c,
        None => seq_join(cli, seq![',']),
    }
}

/// The listeners that the router opens: those of the command line, separated by commas,
/// followed by a comma and those of the configuration file when it names some. When the
/// configuration file names listeners, the command line's are dropped if they are just the
/// default listener.
pub open spec fn listeners_setting(cli: Seq<Seq<char>>, config: Option<Seq<char>>) -> Seq<char> {
    let joined = seq_join(cli, seq![',']);
    match config {
        Some(c) => if joined == default_listener() {
            seq![','] + c
        } else {
            joined + seq![','] + c
        },
        None => joined,
    }
}

/// Without listeners in the configuration file, the listeners setting names every listener
/// of the command line, in order, separated by commas, as the peers setting does: none gives
/// the empty text, one gives itself, and one more adds a comma and itself. With listeners in
/// the configuration file, those follow a comma, after the command line's unless these are
/// just the default listener.
pub proof fn lemma_listeners_setting_joins(cli: Seq<Seq<char>>, x: Seq<char>, c: Seq<char>)
    ensures
        listeners_setting(Seq::empty(), None) == Seq::<char>::empty(),
        listeners_setting(seq![x], None) == x,
        cli.len() > 0 ==> listeners_setting(cli.push(x), None) == listeners_setting(cli, None) + seq![','] + x,
        listeners_setting(cli, None) == peers_setting(cli, None),
        listeners_setting(cli, Some(c)) == (if listeners_setting(cli, None) == default_listener() {
            Seq::<char>::empty()
        } else {
            listeners_setting(cli, None)
        }) + seq![','] + c,
{
    assert(cli.push(x).drop_last() =~= cli);
    assert(seq![','] + c =~= Seq::<char>::empty() + seq![','] + c);
}

/// The settings that the daemon gives the router.
pub struct RouterSettings {
    /// Always `router`.
    pub mode: String,
    pub peer: String,
    pub listener: String,
    /// `false` when the command line holds `--no-timestamp`, `true` otherwise.
    pub add_timestamp: String,
}

/// The peers setting, from the peers of the command line and of the configuration file.
pub fn merge_peers(cli: &Vec<String>, config: Option<&str>) -> (s: String)
    ensures
        s@ == peers_setting(strings_view(cli@), match config {
            Some(c) => Some(c@),
            None => None,
        }),
{
    let mut s = join_with(cli, ",");
    assert(","@ =~= seq![',']) by {
        reveal_strlit(",");
    }
    if let Some(c) = config {
        push_char(&mut s, ',');
        push_str(&mut s, c);
    }
    s
}

/// The listeners setting, from the listeners of the command line and of the configuration
/// file.
pub fn merge_listeners(cli: &Vec<String>, config: Option<&str>) -> (s: String)
    ensures
        s@ == listeners_setting(strings_view(cli@), match config {
            Some(c) => Some(c@),
            None => None,
        }),
{
    let mut s = join_with(cli, ",");
    assert(","@ =~= seq![',']) by {
        reveal_strlit(",");
    }
    if let Some(c) = config {
        if same_text(s.as_str(), "tcp/0.0.0.0:7447") {
            s = String::new();
        }
        push_char(&mut s, ',');
        push_str(&mut s, c);
    }
    s
}

/// The router's settings, from the daemon's command line `args`, the peers and listeners
/// that it names, and those of the configuration file.
pub fn router_settings(
    args: &Vec<String>,
    cli_peers: &Vec<String>,
    cli_listeners: &Vec<String>,
    config_peer: Option<&str>,
    config_listener: Option<&str>,
) -> (r: RouterSettings)
    ensures
        r.mode@ == "router"@,
        r.peer@ == peers_setting(strings_view(cli_peers@), match config_peer {
            Some(c) => Some(c@),
            None => None,
        }),
        r.listener@ == listeners_setting(strings_view(cli_listeners@), match config_listener {
            Some(c) => Some(c@),
            None => None,
        }),
        r.add_timestamp@ == (if has_flag(strings_view(args@), "--no-timestamp"@) {
            "false"@
        } else {
            "true"@
        }),
{
    let add_timestamp = if flag_given(args, "--no-timestamp") {
        owned("false")
    } else {
        owned("true")
    };
    RouterSettings {
        mode: owned("router"),
        peer: merge_peers(cli_peers, config_peer),
        listener: merge_listeners(cli_listeners, config_listener),
        add_timestamp,
    }
}

/// Whether the daemon looks for plugins besides those its command line names: unless the
/// command line holds `--plugin-nolookup`.
pub fn plugin_lookup_enabled(args: &Vec<String>) -> (b: bool)
    ensures
        b == !has_flag(strings_view(args@), "--plugin-nolookup"@),
{
    !flag_given(args, "--plugin-nolookup")
}

} // verus!
