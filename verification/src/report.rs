//! The usage report: assembly and JSON rendering.
//!
//! A report carries the machine and session ids, the version, the
//! platform record, and the usage map collected from the first-party
//! plugin configurations and the CLI arguments.

use crate::args::ArgRecord;
use crate::args::args_spec;
use crate::args::record_args;
use crate::config::ConfigValue;
use crate::jsonfmt::json_string;
use crate::jsonfmt::json_string_of;
use crate::platform::Platform;
use crate::usage::UsageMap;
use crate::usage::UsageView;
use crate::usage::json_entries;
use crate::walker::config_key;
use crate::walker::has_prefix;
use crate::walker::lemma_walk_keys_scoped;
use crate::walker::visit_config;
use crate::walker::visit_spec;
use vstd::prelude::*;
use vstd::string::StrSliceExecFns;
use vstd::string::StringExecFns;

verus! {

/// The assembled usage report.
pub struct Report {
    pub machine_id: String,
    pub session_id: String,
    pub version: String,
    pub platform: Platform,
    pub usage: UsageMap,
}

/// First-party plugins: those whose registered name lies in the host
/// vendor's namespace.  Only their configurations may be walked.
pub open spec fn is_first_party_spec(name: Seq<char>) -> bool {
    has_prefix(name, "apollo."@)
}

/// Decides whether a plugin name is first-party.
pub fn is_first_party(name: &str) -> (r: bool)
    ensures
        r == is_first_party_spec(name@),
{
    proof {
        reveal_strlit("apollo.");
    }
    let n = name.unicode_len();
    if n < 7 {
        return false;
    }
    let head = name.substring_char(0, 7);
    let r = crate::usage::str_eq(head, "apollo.");
    proof {
        assert(head@ == name@.subrange(0, "apollo."@.len() as int));
    }
    r
}

/// What the plugin entries add to the map `m`: each first-party entry is
/// walked under its registered name; the rest add nothing.
pub open spec fn plugins_spec(
    m: Map<Seq<char>, UsageView>,
    plugins: Seq<(String, ConfigValue)>,
) -> Map<Seq<char>, UsageView>
    decreases plugins.len(),
{
    if plugins.len() == 0 {
        m
    } else {
        let p = plugins.first();
        let m1 = if is_first_party_spec(p.0@) {
            visit_spec(m, p.0@, p.1)
        } else {
            m
        };
        plugins_spec(m1, plugins.drop_first())
    }
}

/// Walks every first-party plugin entry into `usage`; third-party
/// entries are never inspected.
pub fn record_plugins(usage: &mut UsageMap, plugins: &Vec<(String, ConfigValue)>)
    requires
        old(usage).wf(),
    ensures
        final(usage).wf(),
        final(usage).as_map() == plugins_spec(old(usage).as_map(), plugins@),
{
    let n = plugins.len();
    proof {
        assert(plugins@.skip(0) =~= plugins@);
    }
    for i in 0..n
        invariant
            n == plugins.len(),
            usage.wf(),
            plugins_spec(old(usage).as_map(), plugins@) == plugins_spec(
                usage.as_map(),
                plugins@.skip(i as int),
            ),
    {
        proof {
            assert(plugins@.skip(i as int).first() == plugins@[i as int]);
            assert(plugins@.skip(i as int).drop_first() =~= plugins@.skip(i + 1));
        }
        let p = &plugins[i];
        if is_first_party(p.0.as_str()) {
            visit_config(usage, p.0.as_str(), &p.1);
        }
    }
    proof {
        assert(plugins@.skip(n as int) =~= Seq::<(String, ConfigValue)>::empty());
    }
}

/// Scope of the report: every key the plugin walk adds extends
/// `configuration.<name>` for some first-party entry — a document with
/// third-party entries contributes nothing outside the first-party
/// namespaces.
pub proof fn lemma_plugins_scoped(
    m: Map<Seq<char>, UsageView>,
    plugins: Seq<(String, ConfigValue)>,
)
    ensures
        forall|k: Seq<char>| #[trigger]
            plugins_spec(m, plugins).contains_key(k) ==> m.contains_key(k) || (exists|i: int|
                0 <= i < plugins.len() && is_first_party_spec(plugins[i].0@) && has_prefix(
                    k,
                    config_key(plugins[i].0@),
                )),
    decreases plugins.len(),
{
    if plugins.len() > 0 {
        let p = plugins.first();
        let m1 = if is_first_party_spec(p.0@) {
            visit_spec(m, p.0@, p.1)
        } else {
            m
        };
        let mr = plugins_spec(m1, plugins.drop_first());
        if is_first_party_spec(p.0@) {
            lemma_walk_keys_scoped(m, p.0@, p.1);
        }
        lemma_plugins_scoped(m1, plugins.drop_first());
        assert forall|k: Seq<char>| #[trigger] mr.contains_key(k) implies m.contains_key(k) || (
        exists|i: int|
            0 <= i < plugins.len() && is_first_party_spec(plugins[i].0@) && has_prefix(
                k,
                config_key(plugins[i].0@),
            )) by {
            if !m.contains_key(k) {
                if m1.contains_key(k) && !(m.contains_key(k) && is_first_party_spec(p.0@)
                    && !visit_spec(m, p.0@, p.1).contains_key(k)) {
                    if is_first_party_spec(p.0@) && has_prefix(k, config_key(p.0@)) {
                        assert(0 <= 0 < plugins.len() && is_first_party_spec(plugins[0].0@)
                            && has_prefix(k, config_key(plugins[0].0@)));
                    }
                }
                if !(m1.contains_key(k) && (is_first_party_spec(p.0@) ==> has_prefix(
                    k,
                    config_key(p.0@),
                ))) {
                    let j = choose|j: int|
                        0 <= j < plugins.drop_first().len() && is_first_party_spec(
                            plugins.drop_first()[j].0@,
                        ) && has_prefix(k, config_key(plugins.drop_first()[j].0@));
                    assert(plugins.drop_first()[j] == plugins[j + 1]);
                    assert(0 <= j + 1 < plugins.len() && is_first_party_spec(plugins[j + 1].0@)
                        && has_prefix(k, config_key(plugins[j + 1].0@)));
                }
            }
        }
    }
}

/// Every text that may appear as a number in the report of these plugin
/// entries: the numeric leaves and array lengths of each entry's
/// configuration.
pub open spec fn plugins_number_texts(plugins: Seq<(String, ConfigValue)>) -> Set<Seq<char>>
    decreases plugins.len(),
{
    if plugins.len() == 0 {
        Set::empty()
    } else {
        crate::walker::number_texts(plugins.first().1).union(
            plugins_number_texts(plugins.drop_first()),
        )
    }
}

/// Anonymity of the plugin walk: every entry it writes is a boolean, the
/// shape token, or a number drawn from the walked configurations.
pub proof fn lemma_plugins_anonymous(
    m: Map<Seq<char>, UsageView>,
    plugins: Seq<(String, ConfigValue)>,
)
    ensures
        forall|k: Seq<char>| #[trigger]
            plugins_spec(m, plugins).contains_key(k) ==> crate::walker::entry_from_shape(
                m,
                plugins_spec(m, plugins),
                k,
                plugins_number_texts(plugins),
            ),
    decreases plugins.len(),
{
    if plugins.len() > 0 {
        let p = plugins.first();
        let rest = plugins.drop_first();
        let m1 = if is_first_party_spec(p.0@) {
            visit_spec(m, p.0@, p.1)
        } else {
            m
        };
        let mr = plugins_spec(m1, rest);
        if is_first_party_spec(p.0@) {
            crate::walker::lemma_walk_anonymous(m, p.0@, p.1);
        }
        lemma_plugins_anonymous(m1, rest);
        assert forall|k: Seq<char>| #[trigger] mr.contains_key(k) implies
            crate::walker::entry_from_shape(m, mr, k, plugins_number_texts(plugins)) by {
            assert(crate::walker::entry_from_shape(m1, mr, k, plugins_number_texts(rest)));
            if m1.contains_key(k) && mr[k] == m1[k] && is_first_party_spec(p.0@) {
                assert(crate::walker::entry_from_shape(m, m1, k, crate::walker::number_texts(p.1)));
            }
            assert(forall|t: Seq<char>|
                crate::walker::number_texts(p.1).contains(t) ==> #[trigger] plugins_number_texts(
                    plugins,
                ).contains(t));
            assert(forall|t: Seq<char>|
                plugins_number_texts(rest).contains(t) ==> #[trigger] plugins_number_texts(
                    plugins,
                ).contains(t));
        }
    }
}

/// Anonymity of the whole usage map: every entry of a composed report is
/// a boolean, the shape token, or a number drawn from the first-party
/// configurations' numeric leaves and array lengths — never a string
/// value of the document or of an argument.
pub proof fn lemma_report_usage_anonymous(
    plugins: Seq<(String, ConfigValue)>,
    args: Seq<crate::args::ArgRecord>,
)
    ensures
        forall|k: Seq<char>| #[trigger]
            crate::args::args_spec(
                plugins_spec(Map::<Seq<char>, UsageView>::empty(), plugins),
                args,
            ).contains_key(k) ==> crate::walker::entry_from_shape(
                Map::<Seq<char>, UsageView>::empty(),
                crate::args::args_spec(
                    plugins_spec(Map::<Seq<char>, UsageView>::empty(), plugins),
                    args,
                ),
                k,
                plugins_number_texts(plugins),
            ),
{
    let base = plugins_spec(Map::<Seq<char>, UsageView>::empty(), plugins);
    let full = crate::args::args_spec(base, args);
    lemma_plugins_anonymous(Map::<Seq<char>, UsageView>::empty(), plugins);
    crate::args::lemma_args_values(base, args);
    assert forall|k: Seq<char>| #[trigger] full.contains_key(k) implies
        crate::walker::entry_from_shape(
        Map::<Seq<char>, UsageView>::empty(),
        full,
        k,
        plugins_number_texts(plugins),
    ) by {
        if base.contains_key(k) && full[k] == base[k] {
            assert(crate::walker::entry_from_shape(
                Map::<Seq<char>, UsageView>::empty(),
                base,
                k,
                plugins_number_texts(plugins),
            ));
        }
    }
}

/// Assembles the report from the identity values, the platform record,
/// the plugin entries, and the argument records.
pub fn compose_report(
    machine_id: String,
    session_id: String,
    version: String,
    platform: Platform,
    plugins: &Vec<(String, ConfigValue)>,
    args: &Vec<ArgRecord>,
) -> (r: Report)
    ensures
        r.machine_id == machine_id,
        r.session_id == session_id,
        r.version == version,
        r.platform == platform,
        r.usage.wf(),
        r.usage.as_map() == args_spec(
            plugins_spec(Map::<Seq<char>, UsageView>::empty(), plugins@),
            args@,
        ),
{
    let mut usage = UsageMap::new();
    record_plugins(&mut usage, plugins);
    record_args(&mut usage, args);
    Report { machine_id, session_id, version, platform, usage }
}

/// The JSON text of the platform record.
pub open spec fn json_platform(p: Platform) -> Seq<char> {
    "{\"os\":"@ + json_string(p.os@) + ",\"continuous_integration\":"@ + (match p
        .continuous_integration {
        Option::Some(t) => json_string(t@),
        Option::None => "null"@,
    }) + "}"@
}

/// The JSON document of a whole report: exactly the five wire fields.
pub open spec fn json_report(r: Report) -> Seq<char> {
    "{\"machine_id\":"@ + json_string(r.machine_id@) + ",\"session_id\":"@ + json_string(
        r.session_id@,
    ) + ",\"version\":"@ + json_string(r.version@) + ",\"platform\":"@ + json_platform(r.platform)
        + ",\"usage\":{"@ + json_entries(r.usage.entries_view()) + "}}"@
}

/// Renders the report as the JSON document that is sent to the
/// collector.
pub fn report_json(rep: &Report) -> (r: String)
    ensures
        r@ == json_report(*rep),
{
    let mut r = String::from_str("{\"machine_id\":");
    let mid = json_string_of(rep.machine_id.as_str());
    r.append(mid.as_str());
    r.append(",\"session_id\":");
    let sid = json_string_of(rep.session_id.as_str());
    r.append(sid.as_str());
    r.append(",\"version\":");
    let ver = json_string_of(rep.version.as_str());
    r.append(ver.as_str());
    r.append(",\"platform\":");
    r.append("{\"os\":");
    let os = json_string_of(rep.platform.os.as_str());
    r.append(os.as_str());
    r.append(",\"continuous_integration\":");
    match &rep.platform.continuous_integration {
        Option::Some(t) => {
            let tag = json_string_of(t.as_str());
            r.append(tag.as_str());
        },
        Option::None => {
            r.append("null");
        },
    }
    r.append("}");
    r.append(",\"usage\":{");
    let body = rep.usage.to_json_body();
    r.append(body.as_str());
    r.append("}}");
    proof {
        assert(r@ =~= json_report(*rep));
    }
    r
}

} // verus!
