//! The assistant's configuration and the command-line flags that change it.

use vstd::prelude::*;
use vstd::utf8::decode_utf8;
use crate::cli::Args;
use crate::mcp::config::{join_path, join_path_exec};

verus! {

/// The settings kept between runs.
pub struct AppConfig {
    pub api_key: Option<String>,
    pub system_prompt: Option<String>,
    pub save_history: Option<bool>,
    pub enable_memory_broker: Option<bool>,
    pub enable_auto_memory: Option<bool>,
    pub memory_broker_model: Option<String>,
}

/// The system prompt used unless another is set.
pub open spec fn default_system_prompt() -> Seq<char> {
    "You are a helpful command-line assistant for Linux. You have access to the last few commands the user has run in their terminal. Use this context to provide more relevant answers. When asked about commands, provide concise and practical solutions focused on the user's needs."@
}

impl Default for AppConfig {
    /// No key; the default system prompt; history, broker and automatic
    /// memory on; `gemini-2.0-flash` for the broker.
    fn default() -> (c: Self)
        ensures
            c.api_key is None,
            c.system_prompt matches Some(p) && p@ == default_system_prompt(),
            c.save_history == Some(true),
            c.enable_memory_broker == Some(true),
            c.enable_auto_memory == Some(true),
            c.memory_broker_model matches Some(m) && m@ == "gemini-2.0-flash"@,
    {
        AppConfig {
            api_key: None,
            system_prompt: Some(
                String::from_str(
                    "You are a helpful command-line assistant for Linux. You have access to the last few commands the user has run in their terminal. Use this context to provide more relevant answers. When asked about commands, provide concise and practical solutions focused on the user's needs.",
                ),
            ),
            save_history: Some(true),
            enable_memory_broker: Some(true),
            enable_auto_memory: Some(true),
            memory_broker_model: Some(String::from_str("gemini-2.0-flash")),
        }
    }
}

/// The name of the suite's configuration directory.
pub open spec fn config_dir_name() -> Seq<char> {
    "gemini-suite"@
}

/// The configuration directory under the user's configuration base `base`
/// (`~/.config` on Linux), or an error when no base could be determined.
pub fn get_config_dir(base: Option<&str>) -> (r: Result<String, String>)
    ensures
        match base {
            Some(b) => r matches Ok(d) && d@ == join_path(b@, config_dir_name()),
            None => r matches Err(e) && e@ == "Could not determine config directory"@,
        },
{
    match base {
        Some(b) => Ok(join_path_exec(b, "gemini-suite")),
        None => Err(String::from_str("Could not determine config directory")),
    }
}

/// The configuration file in the configuration directory.
pub fn get_config_file_path(config_dir: &str) -> (r: String)
    ensures
        r@ == join_path(config_dir@, "config.toml"@),
{
    join_path_exec(config_dir, "config.toml")
}

/// How a notice is shown.
pub enum Tone {
    /// Something was switched on or set.
    Good,
    /// Something was switched off.
    Caution,
}

/// A line to show the user.
pub struct Notice {
    pub text: String,
    pub tone: Tone,
}

/// The setting a switch pair gives: `Some(true)` when the first flag is
/// given, `Some(false)` when only the second is, the old value otherwise.
pub open spec fn switched(old: Option<bool>, on: bool, off: bool) -> Option<bool> {
    if on {
        Some(true)
    } else if off {
        Some(false)
    } else {
        old
    }
}

/// Sets a switch and says whether it changed.
fn apply_switch(setting: &mut Option<bool>, on: bool, off: bool) -> (changed: bool)
    ensures
        *final(setting) == switched(*old(setting), on, off),
        changed == (*final(setting) != *old(setting)),
{
    if on {
        if *setting != Some(true) {
            *setting = Some(true);
            return true;
        }
    } else if off {
        if *setting != Some(false) {
            *setting = Some(false);
            return true;
        }
    }
    false
}

/// What the switches changed.
pub struct Switched {
    pub history_changed: bool,
    pub memory_changed: bool,
    pub notices: Vec<Notice>,
}

/// Applies the history, broker and automatic-memory switches; the
/// configuration is then saved if anything changed.
pub fn apply_switches(args: &Args, cfg: &mut AppConfig) -> (r: Switched)
    ensures
        final(cfg).save_history == switched(old(cfg).save_history, args.enable_history, args.disable_history),
        final(cfg).enable_memory_broker == switched(old(cfg).enable_memory_broker, args.enable_memory_broker, args.disable_memory_broker),
        final(cfg).enable_auto_memory == switched(old(cfg).enable_auto_memory, args.enable_auto_memory, args.disable_auto_memory),
        final(cfg).api_key == old(cfg).api_key,
        final(cfg).system_prompt == old(cfg).system_prompt,
        final(cfg).memory_broker_model == old(cfg).memory_broker_model,
        r.history_changed == (final(cfg).save_history != old(cfg).save_history),
        r.memory_changed == (final(cfg).enable_memory_broker != old(cfg).enable_memory_broker
            || final(cfg).enable_auto_memory != old(cfg).enable_auto_memory),
{
    let mut notices: Vec<Notice> = Vec::new();
    let h = apply_switch(&mut cfg.save_history, args.enable_history, args.disable_history);
    if h {
        if args.enable_history {
            notices.push(Notice { text: String::from_str("Conversation history enabled."), tone: Tone::Good });
        } else {
            notices.push(Notice { text: String::from_str("Conversation history disabled."), tone: Tone::Caution });
        }
    }
    let b = apply_switch(&mut cfg.enable_memory_broker, args.enable_memory_broker, args.disable_memory_broker);
    if b {
        if args.enable_memory_broker {
            notices.push(Notice { text: String::from_str("Memory broker enabled."), tone: Tone::Good });
        } else {
            notices.push(Notice { text: String::from_str("Memory broker disabled."), tone: Tone::Caution });
        }
    }
    let a = apply_switch(&mut cfg.enable_auto_memory, args.enable_auto_memory, args.disable_auto_memory);
    if a {
        if args.enable_auto_memory {
            notices.push(Notice { text: String::from_str("Auto memory enabled."), tone: Tone::Good });
        } else {
            notices.push(Notice { text: String::from_str("Auto memory disabled."), tone: Tone::Caution });
        }
    }
    Switched { history_changed: h, memory_changed: b || a, notices }
}

/// Sets the API key and the system prompt given on the command line and
/// says whether either changed.
pub fn apply_values(args: &Args, cfg: &mut AppConfig) -> (r: (bool, Vec<Notice>))
    ensures
        final(cfg).api_key == match args.set_api_key {
            Some(k) => if old(cfg).api_key matches Some(o) && o@ == k@ {
                old(cfg).api_key
            } else {
                Some(k)
            },
            None => old(cfg).api_key,
        },
        final(cfg).system_prompt == match args.set_system_prompt {
            Some(p) => if old(cfg).system_prompt matches Some(o) && o@ == p@ {
                old(cfg).system_prompt
            } else {
                Some(p)
            },
            None => old(cfg).system_prompt,
        },
        final(cfg).save_history == old(cfg).save_history,
        final(cfg).enable_memory_broker == old(cfg).enable_memory_broker,
        final(cfg).enable_auto_memory == old(cfg).enable_auto_memory,
        final(cfg).memory_broker_model == old(cfg).memory_broker_model,
        r.0 == (final(cfg).api_key != old(cfg).api_key || final(cfg).system_prompt != old(cfg).system_prompt),
{
    let mut notices: Vec<Notice> = Vec::new();
    let mut updated = false;
    if let Some(key) = &args.set_api_key {
        let same = match &cfg.api_key {
            Some(o) => *o == *key,
            None => false,
        };
        if !same {
            cfg.api_key = Some(key.clone());
            updated = true;
            notices.push(Notice { text: String::from_str("API Key updated."), tone: Tone::Good });
        }
    }
    let key_changed = updated;
    if let Some(prompt) = &args.set_system_prompt {
        let same = match &cfg.system_prompt {
            Some(o) => *o == *prompt,
            None => false,
        };
        if !same {
            cfg.system_prompt = Some(prompt.clone());
            updated = true;
            notices.push(Notice { text: String::from_str("System prompt updated."), tone: Tone::Good });
        }
    }
    (updated, notices)
}

/// Whether the run ends after the flags: after showing the configuration,
/// or when only switches were changed.
pub fn should_exit(switched_any: bool, values_updated: bool, show_config: bool) -> (b: bool)
    ensures
        b == (show_config || (switched_any && !values_updated)),
{
    show_config || (switched_any && !values_updated)
}

/// `s` shortened to its first `n` bytes and `...` when it is longer.
pub open spec fn shortened(s: Seq<char>, n: nat) -> Seq<char> {
    if vstd::utf8::encode_utf8(s).len() > n {
        decode_utf8(vstd::utf8::encode_utf8(s).subrange(0, n as int)) + "..."@
    } else {
        s
    }
}

/// The first `n` bytes of `s` and `...`, when `s` is longer; it must split
/// there between characters.
fn shorten(s: &str, n: usize) -> (r: Option<String>)
    requires
        vstd::utf8::encode_utf8(s@).len() <= usize::MAX,
        vstd::utf8::encode_utf8(s@).len() > n ==> vstd::utf8::is_char_boundary(vstd::utf8::encode_utf8(s@), n as int),
    ensures
        match r {
            Some(t) => vstd::utf8::encode_utf8(s@).len() > n && t@ == shortened(s@, n as nat),
            None => vstd::utf8::encode_utf8(s@).len() <= n,
        },
{
    if s.len() > n {
        let (head, _) = s.split_at(n);
        proof {
            vstd::utf8::encode_utf8_decode_utf8(head@);
            assert(vstd::utf8::encode_utf8(head@) =~= vstd::utf8::encode_utf8(s@).subrange(0, n as int));
            assert(decode_utf8(vstd::utf8::encode_utf8(s@).subrange(0, n as int)) == head@);
        }
        let mut t = String::from_str(head);
        t.append("...");
        Some(t)
    } else {
        None
    }
}

/// The configuration as `--show-config` shows it, item by item.
pub struct ConfigDisplay {
    pub api_key: String,
    pub system_prompt: String,
    pub save_history: bool,
    pub memory_broker: bool,
    pub auto_memory: bool,
    pub memory_broker_model: String,
}

/// The configuration as it is shown: the key's first 8 bytes (`Set` for a
/// shorter key, `Not Set` without one), the prompt's first 50 bytes
/// (`Default` without one), the switches (on unless set off) and the
/// broker's model.
pub fn config_display(cfg: &AppConfig) -> (d: ConfigDisplay)
    requires
        cfg.api_key matches Some(k) ==> vstd::utf8::encode_utf8(k@).len() <= usize::MAX,
        cfg.system_prompt matches Some(p) ==> vstd::utf8::encode_utf8(p@).len() <= usize::MAX,
        cfg.api_key matches Some(k) ==> (vstd::utf8::encode_utf8(k@).len() > 8 ==> vstd::utf8::is_char_boundary(vstd::utf8::encode_utf8(k@), 8)),
        cfg.system_prompt matches Some(p) ==> (vstd::utf8::encode_utf8(p@).len() > 50 ==> vstd::utf8::is_char_boundary(vstd::utf8::encode_utf8(p@), 50)),
    ensures
        d.api_key@ == match cfg.api_key {
            Some(k) => if vstd::utf8::encode_utf8(k@).len() > 8 {
                shortened(k@, 8)
            } else {
                "Set"@
            },
            None => "Not Set"@,
        },
        d.system_prompt@ == match cfg.system_prompt {
            Some(p) => shortened(p@, 50),
            None => "Default"@,
        },
        d.save_history == match cfg.save_history {
            Some(b) => b,
            None => true,
        },
        d.memory_broker == match cfg.enable_memory_broker {
            Some(b) => b,
            None => true,
        },
        d.auto_memory == match cfg.enable_auto_memory {
            Some(b) => b,
            None => true,
        },
        d.memory_broker_model@ == match cfg.memory_broker_model {
            Some(m) => m@,
            None => "gemini-2.0-flash"@,
        },
{
    let api_key = match &cfg.api_key {
        Some(k) => match shorten(k.as_str(), 8) {
            Some(t) => t,
            None => String::from_str("Set"),
        },
        None => String::from_str("Not Set"),
    };
    let system_prompt = match &cfg.system_prompt {
        Some(p) => match shorten(p.as_str(), 50) {
            Some(t) => t,
            None => p.clone(),
        },
        None => String::from_str("Default"),
    };
    ConfigDisplay {
        api_key,
        system_prompt,
        save_history: match cfg.save_history {
            Some(b) => b,
            None => true,
        },
        memory_broker: match cfg.enable_memory_broker {
            Some(b) => b,
            None => true,
        },
        auto_memory: match cfg.enable_auto_memory {
            Some(b) => b,
            None => true,
        },
        memory_broker_model: match &cfg.memory_broker_model {
            Some(m) => m.clone(),
            None => String::from_str("gemini-2.0-flash"),
        },
    }
}

} // verus!
