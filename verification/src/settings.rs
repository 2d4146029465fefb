//! The user's settings and how they are stored.
use crate::risk::RiskPolicy;
use crate::text;
use vstd::prelude::*;

verus! {

/// What the user can set.
#[derive(Debug, Clone, Copy, PartialEq, Eq, Structural)]
pub struct V2Settings {
    pub retention_days: u32,
    pub upload_alert_bytes_per_second: u64,
    pub download_alert_bytes_per_second: u64,
    pub spike_multiplier: u32,
    pub alert_new_process: bool,
    pub alert_new_endpoint: bool,
}

/// The settings before the user has set any.
pub open spec fn default_settings() -> V2Settings {
    V2Settings {
        retention_days: 30,
        upload_alert_bytes_per_second: 10_485_760,
        download_alert_bytes_per_second: 26_214_400,
        spike_multiplier: 4,
        alert_new_process: true,
        alert_new_endpoint: true,
    }
}

impl Default for V2Settings {
    fn default() -> (settings: V2Settings)
        ensures
            settings == default_settings(),
    {
        V2Settings {
            retention_days: 30,
            upload_alert_bytes_per_second: 10_485_760,
            download_alert_bytes_per_second: 26_214_400,
            spike_multiplier: 4,
            alert_new_process: true,
            alert_new_endpoint: true,
        }
    }
}

/// What the risk evaluator is to hold risky.
pub open spec fn policy_of(settings: V2Settings) -> RiskPolicy {
    RiskPolicy {
        new_process: settings.alert_new_process,
        new_endpoint: settings.alert_new_endpoint,
        upload_threshold: settings.upload_alert_bytes_per_second,
        download_threshold: settings.download_alert_bytes_per_second,
        spike_multiplier: settings.spike_multiplier,
    }
}

/// What the risk evaluator is to hold risky.
pub fn risk_policy(settings: &V2Settings) -> (policy: RiskPolicy)
    ensures
        policy == policy_of(*settings),
{
    RiskPolicy {
        new_process: settings.alert_new_process,
        new_endpoint: settings.alert_new_endpoint,
        upload_threshold: settings.upload_alert_bytes_per_second,
        download_threshold: settings.download_alert_bytes_per_second,
        spike_multiplier: settings.spike_multiplier,
    }
}

/// The word for a truth value.
pub open spec fn truth_text(value: bool) -> Seq<char> {
    if value {
        "true"@
    } else {
        "false"@
    }
}

fn truth(value: bool) -> (text: String)
    ensures
        text@ == truth_text(value),
{
    if value {
        "true".to_owned()
    } else {
        "false".to_owned()
    }
}

/// The names and values under which settings are stored.
pub open spec fn stored_pairs(settings: V2Settings) -> Seq<(Seq<char>, Seq<char>)> {
    seq![
        ("retention_days"@, text::decimal(settings.retention_days as nat)),
        ("upload_alert_bps"@, text::decimal(settings.upload_alert_bytes_per_second as nat)),
        ("download_alert_bps"@, text::decimal(settings.download_alert_bytes_per_second as nat)),
        ("spike_multiplier"@, text::decimal(settings.spike_multiplier as nat)),
        ("alert_new_process"@, truth_text(settings.alert_new_process)),
        ("alert_new_endpoint"@, truth_text(settings.alert_new_endpoint)),
    ]
}

/// The texts of names and values.
pub open spec fn pair_texts(pairs: Seq<(String, String)>) -> Seq<(Seq<char>, Seq<char>)> {
    Seq::new(pairs.len(), |i: int| (pairs[i].0@, pairs[i].1@))
}

/// The names and values under which settings are stored.
pub fn settings_pairs(settings: &V2Settings) -> (pairs: Vec<(String, String)>)
    ensures
        pair_texts(pairs@) == stored_pairs(*settings),
{
    let mut pairs: Vec<(String, String)> = Vec::new();
    pairs.push(("retention_days".to_owned(), text::decimal_text(settings.retention_days as u64)));
    pairs.push(
        (
            "upload_alert_bps".to_owned(),
            text::decimal_text(settings.upload_alert_bytes_per_second),
        ),
    );
    pairs.push(
        (
            "download_alert_bps".to_owned(),
            text::decimal_text(settings.download_alert_bytes_per_second),
        ),
    );
    pairs.push(
        ("spike_multiplier".to_owned(), text::decimal_text(settings.spike_multiplier as u64)),
    );
    pairs.push(("alert_new_process".to_owned(), truth(settings.alert_new_process)));
    pairs.push(("alert_new_endpoint".to_owned(), truth(settings.alert_new_endpoint)));
    assert(pair_texts(pairs@) =~= stored_pairs(*settings));
    pairs
}

/// The stored values, where there are any.
pub struct StoredSettings {
    pub retention_days: Option<String>,
    pub upload_alert_bps: Option<String>,
    pub download_alert_bps: Option<String>,
    pub spike_multiplier: Option<String>,
    pub alert_new_process: Option<String>,
    pub alert_new_endpoint: Option<String>,
}

/// A stored number, or the usual one where none is stored or what is stored is no such number.
pub open spec fn number_or(stored: Option<Seq<char>>, usual: nat, maximum: nat) -> nat {
    match stored {
        Some(s) => match text::number_read(s, maximum) {
            Ok(value) => value,
            Err(_) => usual,
        },
        None => usual,
    }
}

/// A stored truth value, or the usual one where none is stored. Whatever is not `true` is false.
pub open spec fn truth_or(stored: Option<Seq<char>>, usual: bool) -> bool {
    match stored {
        Some(s) => s == "true"@,
        None => usual,
    }
}

/// The settings that stored values come to. A spike is at least a doubling.
pub open spec fn restored(
    retention_days: Option<Seq<char>>,
    upload: Option<Seq<char>>,
    download: Option<Seq<char>>,
    spike: Option<Seq<char>>,
    process: Option<Seq<char>>,
    endpoint: Option<Seq<char>>,
) -> V2Settings {
    let multiplier = number_or(spike, 4, u32::MAX as nat);
    V2Settings {
        retention_days: number_or(retention_days, 30, u32::MAX as nat) as u32,
        upload_alert_bytes_per_second: number_or(upload, 10_485_760, u64::MAX as nat) as u64,
        download_alert_bytes_per_second: number_or(download, 26_214_400, u64::MAX as nat) as u64,
        spike_multiplier: if multiplier < 2 {
            2
        } else {
            multiplier as u32
        },
        alert_new_process: truth_or(process, true),
        alert_new_endpoint: truth_or(endpoint, true),
    }
}

fn read_number(stored: &Option<String>, usual: u64, maximum: u64) -> (value: u64)
    requires
        usual <= maximum,
    ensures
        value == number_or(text::optional(*stored), usual as nat, maximum as nat),
        value <= maximum,
{
    match stored {
        Some(s) => match text::parse_number(s.as_str(), maximum) {
            Ok(value) => value,
            Err(_) => usual,
        },
        None => usual,
    }
}

fn read_truth(stored: &Option<String>, usual: bool) -> (value: bool)
    ensures
        value == truth_or(text::optional(*stored), usual),
{
    match stored {
        Some(s) => text::equal(s.as_str(), "true"),
        None => usual,
    }
}

/// The settings that stored values come to.
pub fn settings_from(stored: &StoredSettings) -> (settings: V2Settings)
    ensures
        settings == restored(
            text::optional(stored.retention_days),
            text::optional(stored.upload_alert_bps),
            text::optional(stored.download_alert_bps),
            text::optional(stored.spike_multiplier),
            text::optional(stored.alert_new_process),
            text::optional(stored.alert_new_endpoint),
        ),
{
    let multiplier: u64 = read_number(&stored.spike_multiplier, 4, u32::MAX as u64);
    V2Settings {
        retention_days: read_number(&stored.retention_days, 30, u32::MAX as u64) as u32,
        upload_alert_bytes_per_second: read_number(&stored.upload_alert_bps, 10_485_760, u64::MAX),
        download_alert_bytes_per_second: read_number(
            &stored.download_alert_bps,
            26_214_400,
            u64::MAX,
        ),
        spike_multiplier: if multiplier < 2 {
            2
        } else {
            multiplier as u32
        },
        alert_new_process: read_truth(&stored.alert_new_process, true),
        alert_new_endpoint: read_truth(&stored.alert_new_endpoint, true),
    }
}

/// Settings that were stored come back as they were, a spike multiplier under two as two.
pub proof fn law_settings_come_back(settings: V2Settings)
    ensures
        ({
            let pairs = stored_pairs(settings);
            restored(
                Some(pairs[0].1),
                Some(pairs[1].1),
                Some(pairs[2].1),
                Some(pairs[3].1),
                Some(pairs[4].1),
                Some(pairs[5].1),
            ) == (V2Settings {
                spike_multiplier: if settings.spike_multiplier < 2 {
                    2
                } else {
                    settings.spike_multiplier
                },
                ..settings
            })
        }),
{
    text::law_numeral_is_read_back(settings.retention_days as nat, u32::MAX as nat);
    text::law_numeral_is_read_back(
        settings.upload_alert_bytes_per_second as nat,
        u64::MAX as nat,
    );
    text::law_numeral_is_read_back(
        settings.download_alert_bytes_per_second as nat,
        u64::MAX as nat,
    );
    text::law_numeral_is_read_back(settings.spike_multiplier as nat, u32::MAX as nat);
    reveal_strlit("true");
    reveal_strlit("false");
    assert("true"@.len() != "false"@.len());
}

/// The names that settings are stored under, and what is stored under each.
pub proof fn law_settings_have_their_names(settings: V2Settings)
    ensures
        ({
            let pairs = stored_pairs(settings);
            &&& pairs.len() == 6
            &&& pairs[0] == ("retention_days"@, text::decimal(settings.retention_days as nat))
            &&& pairs[1] == (
                "upload_alert_bps"@,
                text::decimal(settings.upload_alert_bytes_per_second as nat),
            )
            &&& pairs[2] == (
                "download_alert_bps"@,
                text::decimal(settings.download_alert_bytes_per_second as nat),
            )
            &&& pairs[3] == ("spike_multiplier"@, text::decimal(settings.spike_multiplier as nat))
            &&& pairs[4].0 == "alert_new_process"@
            &&& pairs[4].1 == "true"@ <==> settings.alert_new_process
            &&& pairs[5].0 == "alert_new_endpoint"@
            &&& pairs[5].1 == "true"@ <==> settings.alert_new_endpoint
        }),
{
    reveal_strlit("true");
    reveal_strlit("false");
    assert("true"@.len() != "false"@.len());
}

/// What is not stored is as it is usually: thirty days, ten mebibytes a second sent, twenty-five
/// received, four times for a spike, and reports of what is new.
pub proof fn law_missing_settings_are_the_usual_ones()
    ensures
        restored(None, None, None, None, None, None) == default_settings(),
        default_settings().retention_days == 30,
        default_settings().upload_alert_bytes_per_second == 10 * 1024 * 1024,
        default_settings().download_alert_bytes_per_second == 25 * 1024 * 1024,
        default_settings().spike_multiplier == 4,
        default_settings().alert_new_process,
        default_settings().alert_new_endpoint,
{
}

/// Each stored text decides its own setting: a numeral gives the number, held to at least two for
/// the multiplier, and the word for yes gives yes.
pub proof fn law_stored_texts_decide(
    days: u32,
    upload: u64,
    download: u64,
    spike: u32,
    process: bool,
    endpoint: bool,
)
    ensures
        ({
            let settings = restored(
                Some(text::decimal(days as nat)),
                Some(text::decimal(upload as nat)),
                Some(text::decimal(download as nat)),
                Some(text::decimal(spike as nat)),
                Some(if process { "true"@ } else { "false"@ }),
                Some(if endpoint { "true"@ } else { "false"@ }),
            );
            &&& settings.retention_days == days
            &&& settings.upload_alert_bytes_per_second == upload
            &&& settings.download_alert_bytes_per_second == download
            &&& settings.spike_multiplier == (if spike < 2 { 2 } else { spike })
            &&& settings.alert_new_process == process
            &&& settings.alert_new_endpoint == endpoint
        }),
{
    text::law_numeral_is_read_back(days as nat, u32::MAX as nat);
    text::law_numeral_is_read_back(upload as nat, u64::MAX as nat);
    text::law_numeral_is_read_back(download as nat, u64::MAX as nat);
    text::law_numeral_is_read_back(spike as nat, u32::MAX as nat);
    reveal_strlit("true");
    reveal_strlit("false");
    assert("true"@.len() != "false"@.len());
}

/// The policy follows the settings.
pub proof fn law_policy_follows_settings(settings: V2Settings)
    ensures
        policy_of(settings).new_process == settings.alert_new_process,
        policy_of(settings).new_endpoint == settings.alert_new_endpoint,
        policy_of(settings).upload_threshold == settings.upload_alert_bytes_per_second,
        policy_of(settings).download_threshold == settings.download_alert_bytes_per_second,
        policy_of(settings).spike_multiplier == settings.spike_multiplier,
{
}

} // verus!
