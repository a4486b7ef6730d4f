//! The reports mailed after a run.

use vstd::prelude::*;
use vstd::string::StringExecFns;
use crate::app_config::AppConfig;
use crate::text::{join_strings, spec_join, string_views};

verus! {

/// The subject and the recipients of a report.
pub struct ReportEmail {
    pub subject: String,
    pub recipients: Vec<String>,
    /// The SMTP server and the credentials the report is sent with.
    pub smtp_host: String,
    pub smtp_port: u16,
    pub smtp_username: String,
    pub smtp_password: String,
}

/// `email` goes to the configured recipients through the configured SMTP
/// server, with the configured credentials.
pub open spec fn sent_as_configured(email: ReportEmail, config: AppConfig) -> bool {
    &&& string_views(email.recipients@) == string_views(config.email_config.notification_emails@)
    &&& email.smtp_host@ == config.email_config.smtp_host@
    &&& email.smtp_port == config.email_config.smtp_port
    &&& email.smtp_username@ == config.email_config.smtp_username@
    &&& email.smtp_password@ == config.email_config.smtp_password@
}

fn report_email(config: &AppConfig, subject: String) -> (res: ReportEmail)
    ensures
        res.subject@ == subject@,
        sent_as_configured(res, *config),
{
    let e = &config.email_config;
    ReportEmail {
        subject,
        recipients: recipients(config),
        smtp_host: e.smtp_host.clone(),
        smtp_port: e.smtp_port,
        smtp_username: e.smtp_username.clone(),
        smtp_password: e.smtp_password.clone(),
    }
}

fn recipients(config: &AppConfig) -> (res: Vec<String>)
    ensures
        string_views(res@) == string_views(config.email_config.notification_emails@),
{
    let v = &config.email_config.notification_emails;
    let mut res: Vec<String> = Vec::new();
    let mut i: usize = 0;
    while i < v.len()
        invariant
            i <= v.len(),
            string_views(res@) == string_views(v@.take(i as int)),
        decreases v.len() - i,
    {
        let ghost before = string_views(res@);
        res.push(v[i].clone());
        assert(string_views(res@) =~= before.push(v@[i as int]@));
        assert(string_views(v@.take(i + 1)) =~= string_views(v@.take(i as int)).push(v@[i as int]@));
        i += 1;
    }
    assert(v@.take(v.len() as int) =~= v@);
    res
}

/// The failure report of a run on the configured host.
pub fn send_report(config: &AppConfig) -> (res: ReportEmail)
    ensures
        res.subject@ == "[FAILURE] An error occurred while running `docker-backup` on `"@ + config.hostname@ + "`."@,
        sent_as_configured(res, *config),
{
    let mut subject = "[FAILURE] An error occurred while running `docker-backup` on `".to_owned();
    subject.append(config.hostname.as_str());
    subject.append("`.");
    report_email(config, subject)
}

/// The report of an error on the configured host.
pub fn send_error_report(config: &AppConfig) -> (res: ReportEmail)
    ensures
        res.subject@ == "[FAILURE] xdxd-backup | An error occurred on `"@ + config.hostname@ + "`."@,
        sent_as_configured(res, *config),
{
    let mut subject = "[FAILURE] xdxd-backup | An error occurred on `".to_owned();
    subject.append(config.hostname.as_str());
    subject.append("`.");
    report_email(config, subject)
}

/// The report of an archive of type `prefix` made on the configured host.
pub fn send_success_report(config: &AppConfig, prefix: &str) -> (res: ReportEmail)
    ensures
        res.subject@ == "[SUCCESS] xdxd-backup | An archive of type `"@ + prefix@ + "` was created on `"@
            + config.hostname@ + "`."@,
        sent_as_configured(res, *config),
{
    let mut subject = "[SUCCESS] xdxd-backup | An archive of type `".to_owned();
    subject.append(prefix);
    subject.append("` was created on `");
    subject.append(config.hostname.as_str());
    subject.append("`.");
    report_email(config, subject)
}

/// The log lines of the run, one per line, as the report shows them.
pub fn join_logs(logs: &Vec<String>) -> (res: String)
    ensures
        res@ == spec_join(string_views(logs@), "\n"@),
{
    join_strings(logs, "\n")
}

} // verus!
