use std::collections::{HashMap, HashSet};
use vstd::prelude::*;

use crate::animation::v1::Animation;
use crate::enumeration::v0::Enumeration;
use crate::folder::v0::Folder;
use crate::module::v0::Module;
use crate::organization::v0::Organization;
use crate::record::{RecordDefn, Uuid};

pub mod tagged;

verus! {

/// A token, with the time at which it expires.
pub struct Token {
    /// The raw token data.
    pub token: String,
    /// The time (as an RFC 3339 / ISO 8601 timestamp) at which the token
    /// expires.
    pub expires_at: String,
}

/// How a record is seen: its public part, or the whole of it.
pub enum ApiView<R: RecordDefn> {
    Public(R::Public),
    Private(R::Private),
}

impl<R: RecordDefn> ApiView<R> {
    /// The public view of a record.
    pub fn public(unfrozen: R::Unfrozen) -> (r: Self)
        ensures
            r matches ApiView::Public(p) && R::is_public_of(unfrozen, p),
    {
        ApiView::Public(R::public_of(unfrozen))
    }

    /// The private view of a record.
    pub fn private(unfrozen: R::Unfrozen) -> (r: Self)
        ensures
            r matches ApiView::Private(p) && R::is_private_of(unfrozen, p),
    {
        ApiView::Private(R::private_of(unfrozen))
    }
}

/// A record as the API hands it out, by record type.
pub enum RecordKind {
    Organization(ApiView<Organization>),
    Module(ApiView<Module>),
    Enumeration(ApiView<Enumeration>),
    Folder(ApiView<Folder>),
    Animation(ApiView<Animation>),
}

pub struct Record {
    pub last_modified: String,
    pub version: i64,
    pub kind: RecordKind,
}

/// Why a request failed: an optional code and an optional message.
pub struct Failure {
    code: Option<u32>,
    message: Option<String>,
}

pub struct FailureView {
    pub code: Option<u32>,
    pub message: Option<Seq<char>>,
}

impl View for Failure {
    type V = FailureView;

    closed spec fn view(&self) -> FailureView {
        FailureView {
            code: self.code,
            message: match self.message {
                Some(m) => Some(m@),
                None => None,
            },
        }
    }
}

impl Failure {
    /// A failure that carries a message and no code.
    pub fn from_message(message: String) -> (r: Failure)
        ensures
            r@ == (FailureView { code: None, message: Some(message@) }),
    {
        Failure { code: Option::None, message: Some(message) }
    }

    pub fn code(&self) -> (r: Option<u32>)
        ensures
            r == self@.code,
    {
        self.code
    }

    pub fn message(&self) -> (r: Option<&String>)
        ensures
            match r {
                Some(m) => self@.message == Some(m@),
                None => self@.message is None,
            },
    {
        match &self.message {
            Some(m) => Some(m),
            Option::None => Option::None,
        }
    }
}

impl From<String> for Failure {
    fn from(message: String) -> (r: Failure) {
        Failure { code: Option::None, message: Some(message) }
    }
}

impl vstd::std_specs::convert::FromSpecImpl<String> for Failure {
    open spec fn obeys_from_spec() -> bool {
        true
    }

    closed spec fn from_spec(message: String) -> Failure {
        Failure { code: None, message: Some(message) }
    }
}

/// What answers a request: the answer itself, or why there is none.
pub enum Result<S> {
    Success(S),
    Failure(Failure),
}

pub struct CreateFolderReq {
    pub parent: Uuid,
    pub name: String,
}

pub struct CreateEnumerationReq {
    pub parent: Uuid,
    pub name: String,
}

pub struct CreateStructureReq {
    pub parent: Uuid,
    pub name: String,
}

pub struct CreateModuleReq {
    pub parent: Uuid,
    pub name: String,
}

pub struct CreateOrganizationReq {
    pub name: String,
}

pub struct CreateAnimationReq {
    pub parent: Uuid,
    pub name: String,
}

pub struct CreateSceneReq {
    pub parent: Uuid,
    pub name: String,
}

pub struct CreateWorkspaceReq {
    pub parent: Uuid,
    pub name: String,
}

/// Retain a record. The client will receive updates as the record changes.
pub struct RetainReq {
    pub id: Uuid,
}

pub struct RetainSuccess {
    pub id: Uuid,
    pub version: i64,
    pub record: Record,
}

/// Fetch a record. The client will not receive updates as the record
/// changes.
pub struct GetReq {
    pub id: Uuid,
}

pub struct GetSuccess {
    pub id: Uuid,
    pub record: Record,
}

/// Fetch several records. The client will not receive updates as the records
/// change.
pub struct GetManyReq {
    pub ids: HashSet<Uuid>,
}

pub struct GetManySuccess {
    pub records: HashMap<Uuid, Record>,
}

pub struct ChildrenReq {
    pub id: Uuid,
}

pub struct ChildrenSuccess {
    pub id: Uuid,
    pub children: Vec<Uuid>,
}

/// Release a retained record.
pub struct ReleaseReq {
    pub id: Uuid,
}

pub struct CreateSuccess {
    pub id: Uuid,
}

pub struct LoginReq {
    pub username: String,
    pub password: String,
}

pub struct LoginWithTokenReq {
    pub token: String,
}

pub struct LoginWithTokenSuccess {
    pub user_id: Uuid,
}

pub struct RefreshTokenReq {
    pub user_id: Uuid,
    pub token: String,
}

pub struct RefreshTokenSuccess {
    pub access: Token,
    pub refresh: Option<Token>,
}

pub struct LoginSuccess {
    pub user_id: Uuid,
    pub access_token: Token,
    pub refresh_token: Option<Token>,
}

pub struct SignupReq {
    pub username: String,
    pub password: String,
    pub email: String,
    pub first_name: String,
    pub last_name: String,
}

pub struct SignupSuccess {
    pub user_id: Uuid,
    pub access_token: Token,
    pub refresh_token: Option<Token>,
}

/// An action to apply to the record `id`.
pub struct Apply<A> {
    pub id: Uuid,
    pub action: A,
}

pub struct ApplySuccess {
    pub id: Uuid,
    pub version: i64,
    pub last_modified: String,
}

pub enum Req {
    CreateFolder(CreateFolderReq),
    CreateOrganization(CreateOrganizationReq),
    CreateEnumeration(CreateEnumerationReq),
    CreateStructure(CreateStructureReq),
    CreateModule(CreateModuleReq),
    CreateAnimation(CreateAnimationReq),
    CreateWorkspace(CreateWorkspaceReq),
    CreateScene(CreateSceneReq),
    Retain(RetainReq),
    Release(ReleaseReq),
    Get(GetReq),
    GetMany(GetManyReq),
    Children(ChildrenReq),
    Login(LoginReq),
    LoginWithToken(LoginWithTokenReq),
    RefreshToken(RefreshTokenReq),
    Signup(SignupReq),
    ApplyOrganization(Apply<<Organization as RecordDefn>::Action>),
    ApplyModule(Apply<<Module as RecordDefn>::Action>),
    ApplyEnumeration(Apply<<Enumeration as RecordDefn>::Action>),
    ApplyFolder(Apply<<Folder as RecordDefn>::Action>),
    ApplyAnimation(Apply<<Animation as RecordDefn>::Action>),
}

pub enum Res {
    Create(Result<CreateSuccess>),
    Retain(Result<RetainSuccess>),
    Release(Result<()>),
    Get(Result<GetSuccess>),
    GetMany(Result<GetManySuccess>),
    Children(Result<ChildrenSuccess>),
    Login(Result<LoginSuccess>),
    LoginWithToken(Result<LoginWithTokenSuccess>),
    Signup(Result<SignupSuccess>),
    Apply(Result<ApplySuccess>),
    RefreshToken(Result<RefreshTokenSuccess>),
}

pub enum MsgKind {
    Req(Req),
    Res(Res),
}

/// A message: a request, or the response to the request with the same id.
pub struct Msg {
    pub id: Uuid,
    pub kind: MsgKind,
}

/// The response that reports `failure` for a request: the one of the
/// request's kind. Every creation answers as a creation, every action as an
/// application, and both logins as a login with a token.
pub open spec fn failure_response(req: Req, failure: Failure) -> Res {
    match req {
        Req::CreateFolder(_) | Req::CreateOrganization(_) | Req::CreateStructure(_)
        | Req::CreateEnumeration(_) | Req::CreateAnimation(_) | Req::CreateScene(_)
        | Req::CreateWorkspace(_) | Req::CreateModule(_) => Res::Create(Result::Failure(failure)),
        Req::ApplyOrganization(_) | Req::ApplyModule(_) | Req::ApplyEnumeration(_)
        | Req::ApplyFolder(_) | Req::ApplyAnimation(_) => Res::Apply(Result::Failure(failure)),
        Req::Login(_) | Req::LoginWithToken(_) => Res::LoginWithToken(Result::Failure(failure)),
        Req::Signup(_) => Res::Signup(Result::Failure(failure)),
        Req::Get(_) => Res::Get(Result::Failure(failure)),
        Req::GetMany(_) => Res::GetMany(Result::Failure(failure)),
        Req::Children(_) => Res::Children(Result::Failure(failure)),
        Req::Retain(_) => Res::Retain(Result::Failure(failure)),
        Req::Release(_) => Res::Release(Result::Failure(failure)),
        Req::RefreshToken(_) => Res::RefreshToken(Result::Failure(failure)),
    }
}

impl Msg {
    /// The response to this message, under its id.
    pub fn reply(&self, res: Res) -> (r: Msg)
        ensures
            r == (Msg { id: self.id, kind: MsgKind::Res(res) }),
    {
        Msg { id: self.id, kind: MsgKind::Res(res) }
    }

    /// The response, under this request's id, that reports `failure`. Only
    /// a request can fail.
    pub fn fail(&self, failure: Failure) -> (r: Msg)
        requires
            self.kind is Req,
        ensures
            r == (Msg { id: self.id, kind: MsgKind::Res(failure_response(self.kind->Req_0, failure)) }),
    {
        match &self.kind {
            MsgKind::Req(req) => {
                let res = match req {
                    Req::CreateFolder(_) | Req::CreateOrganization(_) | Req::CreateStructure(_)
                    | Req::CreateEnumeration(_) | Req::CreateAnimation(_) | Req::CreateScene(_)
                    | Req::CreateWorkspace(_) | Req::CreateModule(_) => Res::Create(Result::Failure(failure)),
                    Req::ApplyOrganization(_) | Req::ApplyModule(_) | Req::ApplyEnumeration(_)
                    | Req::ApplyFolder(_) | Req::ApplyAnimation(_) => Res::Apply(Result::Failure(failure)),
                    Req::Login(_) | Req::LoginWithToken(_) => Res::LoginWithToken(Result::Failure(failure)),
                    Req::Signup(_) => Res::Signup(Result::Failure(failure)),
                    Req::Get(_) => Res::Get(Result::Failure(failure)),
                    Req::GetMany(_) => Res::GetMany(Result::Failure(failure)),
                    Req::Children(_) => Res::Children(Result::Failure(failure)),
                    Req::Retain(_) => Res::Retain(Result::Failure(failure)),
                    Req::Release(_) => Res::Release(Result::Failure(failure)),
                    Req::RefreshToken(_) => Res::RefreshToken(Result::Failure(failure)),
                };
                Msg { id: self.id, kind: MsgKind::Res(res) }
            },
            MsgKind::Res(_) => {
                proof {
                    assert(false);
                }
                Msg { id: self.id, kind: MsgKind::Res(Res::Release(Result::Failure(failure))) }
            },
        }
    }
}

} // verus!
