//! The bridge to the mobile host: the calls that the engine makes into the
//! host by name, the state that the host's callbacks change, and the events
//! that the engine publishes to the host shell.
//!
//! Nothing here touches the host. A call is described, for the caller to
//! make; a callback is a step on the bridge's state.

use crate::types::TrojanError;
use vstd::prelude::*;

verus! {

/// The class of the host that takes the engine's calls.
pub const HOST_CLASS: &'static str = "com/bmshi/proxy/mobile/MainActivity";

/// An argument of a call into the host.
#[derive(Debug, PartialEq, Eq)]
pub enum HostArg {
    Int(i32),
    Text(String),
}

/// What an argument of a call stands for.
pub enum HostArgView {
    Int(i32),
    Text(Seq<char>),
}

impl View for HostArg {
    type V = HostArgView;

    open spec fn view(&self) -> HostArgView {
        match self {
            HostArg::Int(n) => HostArgView::Int(*n),
            HostArg::Text(s) => HostArgView::Text(s@),
        }
    }
}

/// What a call into the host answers with.
#[derive(Clone, Copy, Debug, PartialEq, Eq)]
pub enum HostReturn {
    Nothing,
    Flag,
    Text,
}

/// A call into the host: a static method of the host's class, by name.
#[derive(Debug, PartialEq, Eq)]
pub struct HostCall {
    pub class: &'static str,
    pub method: &'static str,
    /// The signature of the method as the host's runtime writes it.
    pub signature: &'static str,
    pub args: Vec<HostArg>,
    pub answer: HostReturn,
}

/// What a call stands for.
pub struct HostCallView {
    pub class: Seq<char>,
    pub method: Seq<char>,
    pub signature: Seq<char>,
    pub args: Seq<HostArgView>,
    pub answer: HostReturn,
}

impl View for HostCall {
    type V = HostCallView;

    open spec fn view(&self) -> HostCallView {
        HostCallView {
            class: self.class@,
            method: self.method@,
            signature: self.signature@,
            args: self.args@.map_values(|a: HostArg| a@),
            answer: self.answer,
        }
    }
}

/// The call of the host's method `method` with the signature `signature`
/// and the arguments `args`.
pub open spec fn host_call(
    method: Seq<char>,
    signature: Seq<char>,
    args: Seq<HostArgView>,
    answer: HostReturn,
) -> HostCallView {
    HostCallView { class: HOST_CLASS@, method, signature, args, answer }
}

/// What the bridge knows once the host has initialised it.
#[derive(Clone, Copy, Debug, PartialEq, Eq)]
pub struct AndroidContext {
    /// Whether the engine is meant to run.
    pub running: bool,
    /// The descriptor of the TUN device that the host handed over, or -1.
    pub fd: i32,
}

/// A state of the engine, as the host shell is told of it.
#[derive(Clone, Copy, Debug, PartialEq, Eq)]
pub enum Status {
    Starting,
    Error,
    Stopped,
}

impl Status {
    /// The number that stands for the state in the event.
    pub open spec fn spec_code(self) -> i32 {
        match self {
            Status::Starting => 1,
            Status::Error => 2,
            Status::Stopped => 3,
        }
    }

    /// The number that stands for the state in the event.
    pub fn code(self) -> (c: i32)
        ensures
            c == self.spec_code(),
    {
        match self {
            Status::Starting => 1,
            Status::Error => 2,
            Status::Stopped => 3,
        }
    }
}

/// An event published to the host shell.
#[derive(Clone, Copy, Debug, PartialEq, Eq)]
pub enum HostEvent {
    StatusChanged(Status),
    PermissionResult(bool),
}

impl HostEvent {
    /// The name under which the event is published.
    pub fn name(&self) -> (n: &'static str)
        ensures
            n@ == match self {
                HostEvent::StatusChanged(_) => "on_status_changed"@,
                HostEvent::PermissionResult(_) => "on_permission_result"@,
            },
    {
        match self {
            HostEvent::StatusChanged(_) => "on_status_changed",
            HostEvent::PermissionResult(_) => "on_permission_result",
        }
    }
}

/// The level of detail of the log.
#[derive(Clone, Copy, Debug, PartialEq, Eq)]
pub enum LogLevel {
    Trace,
    Debug,
    Info,
    Warn,
    Error,
}

/// Whether two strings hold the same text.
pub fn str_eq(a: &str, b: &str) -> (r: bool)
    ensures
        r == (a@ == b@),
{
    let left = a.to_owned();
    let right = b.to_owned();
    left == right
}

/// The log level that a setting names: by its name or by its number. Any
/// other setting means `Debug`.
pub open spec fn spec_log_level(level: Seq<char>) -> LogLevel {
    if level == "Trace"@ || level == "0"@ {
        LogLevel::Trace
    } else if level == "Debug"@ || level == "1"@ {
        LogLevel::Debug
    } else if level == "Info"@ || level == "2"@ {
        LogLevel::Info
    } else if level == "Warn"@ || level == "3"@ {
        LogLevel::Warn
    } else if level == "Error"@ || level == "4"@ {
        LogLevel::Error
    } else {
        LogLevel::Debug
    }
}

/// The log level that the setting `level` names.
pub fn log_level(level: &str) -> (l: LogLevel)
    ensures
        l == spec_log_level(level@),
{
    if str_eq(level, "Trace") || str_eq(level, "0") {
        LogLevel::Trace
    } else if str_eq(level, "Debug") || str_eq(level, "1") {
        LogLevel::Debug
    } else if str_eq(level, "Info") || str_eq(level, "2") {
        LogLevel::Info
    } else if str_eq(level, "Warn") || str_eq(level, "3") {
        LogLevel::Warn
    } else if str_eq(level, "Error") || str_eq(level, "4") {
        LogLevel::Error
    } else {
        LogLevel::Debug
    }
}

/// The host initialises the bridge: the engine is not running and holds no
/// TUN device.
pub fn init_rust(context: &mut Option<AndroidContext>)
    ensures
        *final(context) == Some(AndroidContext { running: false, fd: -1i32 }),
{
    *context = Some(AndroidContext { running: false, fd: -1 });
}

/// The host reports what the user answered to a permission request. The
/// host's flag is set where it is not zero.
pub fn on_permission_result(granted: u8) -> (event: HostEvent)
    ensures
        event == HostEvent::PermissionResult(granted != 0),
{
    HostEvent::PermissionResult(granted != 0)
}

/// The host started the VPN and hands over the TUN device `fd`. The engine
/// is to run on it; the host shell is told that it is starting. Before the
/// bridge is initialised this is an error and changes nothing.
pub fn on_vpn_start(context: &mut Option<AndroidContext>, fd: i32) -> (r: Result<
    HostEvent,
    TrojanError,
>)
    ensures
        match *old(context) {
            Some(_) => *final(context) == Some(AndroidContext { running: true, fd }) && r == Ok::<
                HostEvent,
                TrojanError,
            >(HostEvent::StatusChanged(Status::Starting)),
            None => *final(context) == *old(context) && r == Err::<HostEvent, TrojanError>(
                TrojanError::MissingContext,
            ),
        },
{
    match context {
        Some(_) => {
            *context = Some(AndroidContext { running: true, fd });
            Ok(HostEvent::StatusChanged(Status::Starting))
        },
        None => Err(TrojanError::MissingContext),
    }
}

/// The host stopped the VPN. The engine is to stop and lets go of the TUN
/// device, which stays the host's to close; the host shell is told that the
/// engine stopped. Before the bridge is initialised this is an error and
/// changes nothing.
pub fn on_vpn_stop(context: &mut Option<AndroidContext>) -> (r: Result<HostEvent, TrojanError>)
    ensures
        match *old(context) {
            Some(_) => *final(context) == Some(AndroidContext { running: false, fd: -1i32 }) && r
                == Ok::<HostEvent, TrojanError>(HostEvent::StatusChanged(Status::Stopped)),
            None => *final(context) == *old(context) && r == Err::<HostEvent, TrojanError>(
                TrojanError::MissingContext,
            ),
        },
{
    match context {
        Some(_) => {
            *context = Some(AndroidContext { running: false, fd: -1 });
            Ok(HostEvent::StatusChanged(Status::Stopped))
        },
        None => Err(TrojanError::MissingContext),
    }
}

/// The engine failed while it ran on the TUN device: what the host shell is
/// told.
pub fn on_vpn_failed() -> (event: HostEvent)
    ensures
        event == HostEvent::StatusChanged(Status::Error),
{
    HostEvent::StatusChanged(Status::Error)
}

/// The call that asks the host to start the VPN with the MTU `mtu`. Before
/// the bridge is initialised there is no host to call.
pub fn start_vpn(context: &Option<AndroidContext>, mtu: i32) -> (r: Result<HostCall, TrojanError>)
    ensures
        context is None ==> r == Err::<HostCall, TrojanError>(TrojanError::MissingContext),
        context is Some ==> r is Ok && r->Ok_0@ == host_call(
            "startVpn"@,
            "(I)V"@,
            seq![HostArgView::Int(mtu)],
            HostReturn::Nothing,
        ),
{
    if context.is_none() {
        return Err(TrojanError::MissingContext);
    }
    let mut args: Vec<HostArg> = Vec::new();
    args.push(HostArg::Int(mtu));
    let call = HostCall {
        class: HOST_CLASS,
        method: "startVpn",
        signature: "(I)V",
        args,
        answer: HostReturn::Nothing,
    };
    assert(call@.args =~= seq![HostArgView::Int(mtu)]);
    Ok(call)
}

/// The call that asks the host to stop the VPN.
pub fn stop_vpn(context: &Option<AndroidContext>) -> (r: Result<HostCall, TrojanError>)
    ensures
        context is None ==> r == Err::<HostCall, TrojanError>(TrojanError::MissingContext),
        context is Some ==> r is Ok && r->Ok_0@ == host_call(
            "stopVpn"@,
            "()V"@,
            Seq::empty(),
            HostReturn::Nothing,
        ),
{
    if context.is_none() {
        return Err(TrojanError::MissingContext);
    }
    let call = HostCall {
        class: HOST_CLASS,
        method: "stopVpn",
        signature: "()V",
        args: Vec::new(),
        answer: HostReturn::Nothing,
    };
    assert(call@.args =~= Seq::empty());
    Ok(call)
}

/// A call of a method of the host that takes one text.
fn text_call(
    context: &Option<AndroidContext>,
    method: &'static str,
    signature: &'static str,
    text: &str,
    answer: HostReturn,
) -> (r: Result<HostCall, TrojanError>)
    ensures
        context is None ==> r == Err::<HostCall, TrojanError>(TrojanError::MissingContext),
        context is Some ==> r is Ok && r->Ok_0@ == host_call(
            method@,
            signature@,
            seq![HostArgView::Text(text@)],
            answer,
        ),
{
    if context.is_none() {
        return Err(TrojanError::MissingContext);
    }
    let mut args: Vec<HostArg> = Vec::new();
    args.push(HostArg::Text(text.to_owned()));
    let call = HostCall { class: HOST_CLASS, method, signature, args, answer };
    assert(call@.args =~= seq![HostArgView::Text(text@)]);
    Ok(call)
}

/// The call that asks the host whether the app holds `permission`.
pub fn check_self_permission(context: &Option<AndroidContext>, permission: &str) -> (r: Result<
    HostCall,
    TrojanError,
>)
    ensures
        context is None ==> r == Err::<HostCall, TrojanError>(TrojanError::MissingContext),
        context is Some ==> r is Ok && r->Ok_0@ == host_call(
            "checkSelfPermission"@,
            "(Ljava/lang/String;)Z"@,
            seq![HostArgView::Text(permission@)],
            HostReturn::Flag,
        ),
{
    text_call(
        context,
        "checkSelfPermission",
        "(Ljava/lang/String;)Z",
        permission,
        HostReturn::Flag,
    )
}

/// The call that asks the host to request `permission` from the user.
pub fn request_permission(context: &Option<AndroidContext>, permission: &str) -> (r: Result<
    HostCall,
    TrojanError,
>)
    ensures
        context is None ==> r == Err::<HostCall, TrojanError>(TrojanError::MissingContext),
        context is Some ==> r is Ok && r->Ok_0@ == host_call(
            "requestPermission"@,
            "(Ljava/lang/String;)V"@,
            seq![HostArgView::Text(permission@)],
            HostReturn::Nothing,
        ),
{
    text_call(
        context,
        "requestPermission",
        "(Ljava/lang/String;)V",
        permission,
        HostReturn::Nothing,
    )
}

/// The call that asks the host whether the user should be shown why the app
/// needs `permission`.
pub fn should_show_permission_rationale(
    context: &Option<AndroidContext>,
    permission: &str,
) -> (r: Result<HostCall, TrojanError>)
    ensures
        context is None ==> r == Err::<HostCall, TrojanError>(TrojanError::MissingContext),
        context is Some ==> r is Ok && r->Ok_0@ == host_call(
            "shouldShowRequestPermissionRationaleNative"@,
            "(Ljava/lang/String;)Z"@,
            seq![HostArgView::Text(permission@)],
            HostReturn::Flag,
        ),
{
    text_call(
        context,
        "shouldShowRequestPermissionRationaleNative",
        "(Ljava/lang/String;)Z",
        permission,
        HostReturn::Flag,
    )
}

/// The call that asks the host to show `content` in its notification.
pub fn update_notification(context: &Option<AndroidContext>, content: &str) -> (r: Result<
    HostCall,
    TrojanError,
>)
    ensures
        context is None ==> r == Err::<HostCall, TrojanError>(TrojanError::MissingContext),
        context is Some ==> r is Ok && r->Ok_0@ == host_call(
            "updateNotification"@,
            "(Ljava/lang/String;)V"@,
            seq![HostArgView::Text(content@)],
            HostReturn::Nothing,
        ),
{
    text_call(
        context,
        "updateNotification",
        "(Ljava/lang/String;)V",
        content,
        HostReturn::Nothing,
    )
}

/// The call that asks the host to store `content` under `key`.
pub fn save_data(context: &Option<AndroidContext>, key: &str, content: &str) -> (r: Result<
    HostCall,
    TrojanError,
>)
    ensures
        context is None ==> r == Err::<HostCall, TrojanError>(TrojanError::MissingContext),
        context is Some ==> r is Ok && r->Ok_0@ == host_call(
            "saveData"@,
            "(Ljava/lang/String;Ljava/lang/String;)V"@,
            seq![HostArgView::Text(key@), HostArgView::Text(content@)],
            HostReturn::Nothing,
        ),
{
    if context.is_none() {
        return Err(TrojanError::MissingContext);
    }
    let mut args: Vec<HostArg> = Vec::new();
    args.push(HostArg::Text(key.to_owned()));
    args.push(HostArg::Text(content.to_owned()));
    let call = HostCall {
        class: HOST_CLASS,
        method: "saveData",
        signature: "(Ljava/lang/String;Ljava/lang/String;)V",
        args,
        answer: HostReturn::Nothing,
    };
    assert(call@.args =~= seq![HostArgView::Text(key@), HostArgView::Text(content@)]);
    Ok(call)
}

/// The call that asks the host for what it stores under `key`.
pub fn load_data(context: &Option<AndroidContext>, key: &str) -> (r: Result<HostCall, TrojanError>)
    ensures
        context is None ==> r == Err::<HostCall, TrojanError>(TrojanError::MissingContext),
        context is Some ==> r is Ok && r->Ok_0@ == host_call(
            "loadData"@,
            "(Ljava/lang/String;)Ljava/lang/String;"@,
            seq![HostArgView::Text(key@)],
            HostReturn::Text,
        ),
{
    text_call(
        context,
        "loadData",
        "(Ljava/lang/String;)Ljava/lang/String;",
        key,
        HostReturn::Text,
    )
}

} // verus!
