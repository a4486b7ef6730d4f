//! Filling a custom archive configuration with the application-wide defaults.

use vstd::prelude::*;
use crate::app_config::{ArchiveConfig, ArchiveConfigView, CustomArchiveConfig, CustomArchiveConfigView, opt_view};

verus! {

/// `custom` if set, else `default`.
pub open spec fn or_default<T>(custom: Option<T>, default: T) -> T {
    match custom {
        Some(v) => v,
        None => default,
    }
}

/// Each field of the result is the custom value when one is set, else the
/// default.
pub open spec fn spec_merge(custom: CustomArchiveConfigView, defaults: ArchiveConfigView) -> ArchiveConfigView {
    ArchiveConfigView {
        cache_path: or_default(custom.cache_path, defaults.cache_path),
        temp_path: or_default(custom.temp_path, defaults.temp_path),
        gpg_key_name: or_default(custom.gpg_key_name, defaults.gpg_key_name),
        cache_expiry_days: or_default(custom.cache_expiry_days, defaults.cache_expiry_days),
        rar_compression_level: or_default(custom.rar_compression_level, defaults.rar_compression_level),
    }
}

/// Like [`spec_merge`]; no custom configuration at all means the defaults.
pub open spec fn spec_merge_opt(custom: Option<CustomArchiveConfig>, defaults: ArchiveConfigView) -> ArchiveConfigView {
    match custom {
        Some(c) => spec_merge(c@, defaults),
        None => defaults,
    }
}

fn pick_string(custom: &Option<String>, default: &String) -> (res: String)
    ensures
        res@ == or_default(opt_view(*custom), default@),
{
    match custom {
        Some(s) => s.clone(),
        None => default.clone(),
    }
}

fn pick_i64(custom: &Option<i64>, default: i64) -> (res: i64)
    ensures
        res == or_default(*custom, default),
{
    match custom {
        Some(v) => *v,
        None => default,
    }
}

/// The effective archive configuration.
pub trait ArchiveConfigExtensions {
    /// The configuration in which every unset field takes its value from
    /// `defaults`.
    fn as_config(&self, defaults: &ArchiveConfig) -> ArchiveConfig;
}

impl ArchiveConfigExtensions for CustomArchiveConfig {
    fn as_config(&self, defaults: &ArchiveConfig) -> (res: ArchiveConfig)
        ensures
            res@ == spec_merge(self@, defaults@),
    {
        ArchiveConfig {
            temp_path: pick_string(&self.temp_path, &defaults.temp_path),
            cache_path: pick_string(&self.cache_path, &defaults.cache_path),
            gpg_key_name: pick_string(&self.gpg_key_name, &defaults.gpg_key_name),
            cache_expiry_days: pick_i64(&self.cache_expiry_days, defaults.cache_expiry_days),
            rar_compression_level: pick_i64(&self.rar_compression_level, defaults.rar_compression_level),
        }
    }
}

impl ArchiveConfigExtensions for Option<CustomArchiveConfig> {
    fn as_config(&self, defaults: &ArchiveConfig) -> (res: ArchiveConfig)
        ensures
            res@ == spec_merge_opt(*self, defaults@),
    {
        match self {
            Some(c) => c.as_config(defaults),
            None => defaults.copy(),
        }
    }
}

/// With no field set, a custom configuration is the defaults; with every
/// field set, it is itself.
pub proof fn lemma_merge_extremes(custom: CustomArchiveConfigView, defaults: ArchiveConfigView)
    ensures
        (custom.cache_path is None && custom.temp_path is None && custom.gpg_key_name is None
            && custom.cache_expiry_days is None && custom.rar_compression_level is None)
            ==> spec_merge(custom, defaults) == defaults,
        (custom.cache_path is Some && custom.temp_path is Some && custom.gpg_key_name is Some
            && custom.cache_expiry_days is Some && custom.rar_compression_level is Some)
            ==> spec_merge(custom, defaults) == spec_merge(custom, spec_merge(custom, defaults)),
{
}

/// Each field set in the custom configuration is the field of the effective
/// one, and each field left unset is the default's, field by field.
pub proof fn lemma_merge_fields(custom: CustomArchiveConfigView, defaults: ArchiveConfigView)
    ensures
        custom.cache_path matches Some(v) ==> spec_merge(custom, defaults).cache_path == v,
        custom.cache_path is None ==> spec_merge(custom, defaults).cache_path == defaults.cache_path,
        custom.temp_path matches Some(v) ==> spec_merge(custom, defaults).temp_path == v,
        custom.temp_path is None ==> spec_merge(custom, defaults).temp_path == defaults.temp_path,
        custom.gpg_key_name matches Some(v) ==> spec_merge(custom, defaults).gpg_key_name == v,
        custom.gpg_key_name is None ==> spec_merge(custom, defaults).gpg_key_name == defaults.gpg_key_name,
        custom.cache_expiry_days matches Some(v) ==> spec_merge(custom, defaults).cache_expiry_days == v,
        custom.cache_expiry_days is None ==> spec_merge(custom, defaults).cache_expiry_days == defaults.cache_expiry_days,
        custom.rar_compression_level matches Some(v) ==> spec_merge(custom, defaults).rar_compression_level == v,
        custom.rar_compression_level is None
            ==> spec_merge(custom, defaults).rar_compression_level == defaults.rar_compression_level,
{
}

} // verus!
