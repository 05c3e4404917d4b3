//! Microphone access: the decision from the privacy switches of Windows.
//!
//! On Windows 11 access is gated by three switches kept in the registry
//! (CapabilityAccessManager\ConsentStore\microphone): the machine's, the user's,
//! and the one for desktop (non-packaged) applications; the official
//! AppCapability API gives its own answer too. The application reads them; this
//! module decides and words the report. Any switch that denies wins.
use vstd::prelude::*;
use crate::download::{eq_ignore_ascii_case, spec_eq_ignore_ascii_case};
use crate::hotkey::append_str;
use crate::text::{chars_of, string_of};

verus! {

/// The state of access.
#[derive(Clone, Copy, PartialEq, Eq, Debug, Structural)]
pub enum PermissionState {
    /// Access is allowed.
    Allowed,
    /// Access is denied (by the user or the system).
    Denied,
    /// The system must ask the user (who has not decided yet).
    PromptRequired,
    /// Could not be told.
    Unknown,
}

pub open spec fn spec_permission_label(p: PermissionState) -> Seq<char> {
    match p {
        PermissionState::Allowed => "Разрешён"@,
        PermissionState::Denied => "Запрещён"@,
        PermissionState::PromptRequired => "Требуется запрос"@,
        PermissionState::Unknown => "Неизвестно"@,
    }
}

impl PermissionState {
    pub fn label(self) -> (r: &'static str)
        ensures
            r@ == spec_permission_label(self),
    {
        match self {
            PermissionState::Allowed => "Разрешён",
            PermissionState::Denied => "Запрещён",
            PermissionState::PromptRequired => "Требуется запрос",
            PermissionState::Unknown => "Неизвестно",
        }
    }
}

/// The full report for the interface.
pub struct PermissionReport {
    pub effective: PermissionState,
    /// What `AppCapability.CheckAccess()` said.
    pub app_capability: PermissionState,
    /// The machine switch (`None`: not readable).
    pub machine_allow: Option<bool>,
    /// The user switch.
    pub user_allow: Option<bool>,
    /// The switch for desktop applications.
    pub nonpackaged_allow: Option<bool>,
    pub details: Vec<String>,
}

/// A switch value in the registry allows access when it is `Allow`, in any case.
pub fn allow_value(value: &str) -> (r: bool)
    ensures
        r == spec_eq_ignore_ascii_case(value@, "Allow"@),
{
    eq_ignore_ascii_case(&chars_of(value), &chars_of("Allow"))
}

pub open spec fn spec_fmt_allow(v: Option<bool>) -> Seq<char> {
    match v {
        Some(true) => "Allow"@,
        Some(false) => "Deny"@,
        None => "нет данных"@,
    }
}

/// How a switch is shown.
pub fn fmt_allow(v: Option<bool>) -> (r: &'static str)
    ensures
        r@ == spec_fmt_allow(v),
{
    match v {
        Some(true) => "Allow",
        Some(false) => "Deny",
        None => "нет данных",
    }
}

/// The decision: any switch that denies wins (machine, then user, then desktop
/// applications); otherwise access is allowed when the API says so, or when the
/// user switch allows and the desktop switch does not deny; the system must ask
/// when the API says so or when neither the machine nor the user switch could be
/// read; otherwise the API's answer stands.
pub open spec fn spec_effective(machine: Option<bool>, user: Option<bool>, nonpackaged: Option<bool>, app: PermissionState) -> PermissionState {
    if machine == Some(false) || user == Some(false) || nonpackaged == Some(false) {
        PermissionState::Denied
    } else if app == PermissionState::Allowed || (user == Some(true) && nonpackaged != Some(false)) {
        PermissionState::Allowed
    } else if app == PermissionState::PromptRequired || (machine is None && user is None) {
        PermissionState::PromptRequired
    } else {
        app
    }
}

/// The line of the report that explains a denial, if any.
pub open spec fn spec_denial_line(machine: Option<bool>, user: Option<bool>, nonpackaged: Option<bool>) -> Seq<Seq<char>> {
    if machine == Some(false) {
        seq!["→ Запрещено на уровне системы."@]
    } else if user == Some(false) {
        seq!["→ Пользователь отключил микрофон для аккаунта."@]
    } else if nonpackaged == Some(false) {
        seq!["→ Отключён доступ для десктопных приложений."@]
    } else {
        seq![]
    }
}

/// The lines of the report: each source, then the reason of a denial.
pub open spec fn spec_details(machine: Option<bool>, user: Option<bool>, nonpackaged: Option<bool>, app: PermissionState) -> Seq<Seq<char>> {
    seq![
        "AppCapability API: "@ + spec_permission_label(app),
        "Машинный тумблер (HKLM): "@ + spec_fmt_allow(machine),
        "Тумблер пользователя (HKCU): "@ + spec_fmt_allow(user),
        "Десктоп-приложения (NonPackaged): "@ + spec_fmt_allow(nonpackaged),
    ] + spec_denial_line(machine, user, nonpackaged)
}

pub open spec fn strings_view(v: Seq<String>) -> Seq<Seq<char>> {
    v.map_values(|s: String| s@)
}

fn line(a: &str, b: &str) -> (r: String)
    ensures
        r@ == a@ + b@,
{
    let mut v: Vec<char> = Vec::new();
    append_str(&mut v, a);
    append_str(&mut v, b);
    string_of(&v)
}

/// The report from what was read: the three switches and the API's answer.
pub fn report_from(machine: Option<bool>, user: Option<bool>, nonpackaged: Option<bool>, app: PermissionState) -> (r: PermissionReport)
    ensures
        r.effective == spec_effective(machine, user, nonpackaged, app),
        r.app_capability == app,
        r.machine_allow == machine,
        r.user_allow == user,
        r.nonpackaged_allow == nonpackaged,
        strings_view(r.details@) == spec_details(machine, user, nonpackaged, app),
{
    let mut details: Vec<String> = Vec::new();
    details.push(line("AppCapability API: ", app.label()));
    details.push(line("Машинный тумблер (HKLM): ", fmt_allow(machine)));
    details.push(line("Тумблер пользователя (HKCU): ", fmt_allow(user)));
    details.push(line("Десктоп-приложения (NonPackaged): ", fmt_allow(nonpackaged)));
    let effective = if machine == Some(false) {
        details.push("→ Запрещено на уровне системы.".to_owned());
        PermissionState::Denied
    } else if user == Some(false) {
        details.push("→ Пользователь отключил микрофон для аккаунта.".to_owned());
        PermissionState::Denied
    } else if nonpackaged == Some(false) {
        details.push("→ Отключён доступ для десктопных приложений.".to_owned());
        PermissionState::Denied
    } else if app == PermissionState::Allowed || (user == Some(true) && nonpackaged != Some(false)) {
        PermissionState::Allowed
    } else if app == PermissionState::PromptRequired || (machine.is_none() && user.is_none()) {
        PermissionState::PromptRequired
    } else {
        app
    };
    assert(strings_view(details@) =~= spec_details(machine, user, nonpackaged, app));
    PermissionReport {
        effective,
        app_capability: app,
        machine_allow: machine,
        user_allow: user,
        nonpackaged_allow: nonpackaged,
        details,
    }
}

/// Any switch that denies access decides, whatever the API says.
pub proof fn law_denial_wins(machine: Option<bool>, user: Option<bool>, nonpackaged: Option<bool>, app: PermissionState)
    requires
        machine == Some(false) || user == Some(false) || nonpackaged == Some(false),
    ensures
        spec_effective(machine, user, nonpackaged, app) == PermissionState::Denied,
{
}

/// Without a denying switch, an allowing API is obeyed.
pub proof fn law_api_allow_counts(machine: Option<bool>, user: Option<bool>, nonpackaged: Option<bool>)
    requires
        machine != Some(false) && user != Some(false) && nonpackaged != Some(false),
    ensures
        spec_effective(machine, user, nonpackaged, PermissionState::Allowed) == PermissionState::Allowed,
{
}

} // verus!
