//! Rules of a tenant's own administration: its name and its members.
use crate::auth::{
    display_name_label, email_result, password_result, required_text_result, CurrentUser,
};
use crate::error::{text_result, ApiError, ApiResult};
use crate::text::{str_eq, trim};
use vstd::prelude::*;

verus! {

/// The current tenant.
pub struct TenantResponse {
    pub id: u128,
    pub slug: String,
    pub name: String,
}

/// A new name for the tenant.
pub struct UpdateTenantRequest {
    pub name: String,
}

/// A member of the tenant.
pub struct UserResponse {
    pub id: u128,
    pub email: String,
    pub display_name: String,
    pub role: String,
    pub active: bool,
}

/// A new member.
pub struct CreateUserRequest {
    pub email: String,
    pub display_name: String,
    pub role: String,
    pub password: String,
}

/// A change of a member.
pub struct UpdateUserRequest {
    pub display_name: String,
    pub role: String,
    pub active: bool,
}

/// A role that a member may have.
pub open spec fn is_valid_role(role: Seq<char>) -> bool {
    role == "admin"@ || role == "member"@
}

pub open spec fn invalid_role_error() -> (u16, Seq<char>, Seq<char>) {
    (400u16, "INVALID_ROLE"@, "権限はadminまたはmemberを指定してください。"@)
}

/// The outcome of `validate_role`.
pub open spec fn role_result(role: Seq<char>) -> Result<Seq<char>, (u16, Seq<char>, Seq<char>)> {
    if is_valid_role(role) {
        Ok(role)
    } else {
        Err(invalid_role_error())
    }
}

/// The role when it is `admin` or `member`, else `INVALID_ROLE`.
pub fn validate_role(role: &str) -> (r: ApiResult<String>)
    ensures
        text_result(r) == role_result(role@),
{
    if str_eq(role, "admin") || str_eq(role, "member") {
        Ok(role.to_owned())
    } else {
        Err(ApiError::bad_request("INVALID_ROLE", "権限はadminまたはmemberを指定してください。"))
    }
}

/// `FORBIDDEN` unless the user administers the tenant.
pub fn require_admin(user: &CurrentUser) -> (r: ApiResult<()>)
    ensures
        match r {
            Ok(_) => user.role@ == "admin"@,
            Err(e) => user.role@ != "admin"@ && e@ == crate::auth::admin_required_error(),
        },
{
    if user.is_admin() {
        Ok(())
    } else {
        Err(ApiError::forbidden("管理者権限が必要です。"))
    }
}

/// A member's e-mail address trimmed and in lower case, or `INVALID_EMAIL`.
pub fn normalize_email(value: &str) -> (r: ApiResult<String>)
    ensures
        text_result(r) == email_result(value@),
{
    crate::auth::normalize_email(value)
}

/// A checked new member.
pub struct NewUser {
    pub email: String,
    pub display_name: String,
    pub role: String,
}

/// The outcome of checking a new member: the first failing check in the order
/// e-mail, display name, role, password.
pub open spec fn new_user_result(
    email: Seq<char>,
    display_name: Seq<char>,
    role: Seq<char>,
    password: Seq<char>,
) -> Result<(Seq<char>, Seq<char>, Seq<char>), (u16, Seq<char>, Seq<char>)> {
    match email_result(email) {
        Err(e) => Err(e),
        Ok(mail) => match required_text_result(display_name, display_name_label(), 100) {
            Err(e) => Err(e),
            Ok(name) => match role_result(role) {
                Err(e) => Err(e),
                Ok(r) => match password_result(password) {
                    Err(e) => Err(e),
                    Ok(_) => Ok((mail, name, r)),
                },
            },
        },
    }
}

/// The new member checked and normalized.
pub fn validate_new_user(request: &CreateUserRequest) -> (r: ApiResult<NewUser>)
    ensures
        match r {
            Ok(u) => new_user_result(
                request.email@,
                request.display_name@,
                request.role@,
                request.password@,
            ) == Ok::<_, (u16, Seq<char>, Seq<char>)>((u.email@, u.display_name@, u.role@)),
            Err(e) => new_user_result(
                request.email@,
                request.display_name@,
                request.role@,
                request.password@,
            ) == Err::<(Seq<char>, Seq<char>, Seq<char>), _>(e@),
        },
{
    let email = normalize_email(request.email.as_str())?;
    let display_name = crate::auth::required_text(request.display_name.as_str(), "表示名", 100)?;
    let role = validate_role(request.role.as_str())?;
    crate::auth::validate_password(request.password.as_str())?;
    Ok(NewUser { email, display_name, role })
}

pub open spec fn cannot_deactivate_self_error() -> (u16, Seq<char>, Seq<char>) {
    (409u16, "CANNOT_DEACTIVATE_SELF"@, "自分自身を無効化できません。"@)
}

pub open spec fn cannot_delete_self_error() -> (u16, Seq<char>, Seq<char>) {
    (409u16, "CANNOT_DELETE_SELF"@, "自分自身は削除できません。"@)
}

pub open spec fn last_admin_error() -> (u16, Seq<char>, Seq<char>) {
    (409u16, "LAST_ADMIN_REQUIRED"@, "テナントには有効な管理者が1人以上必要です。"@)
}

/// A checked change of a member.
pub struct UserUpdate {
    pub display_name: String,
    pub role: String,
    pub active: bool,
}

/// The outcome of checking a change of a member: display name, then role,
/// then that nobody deactivates themselves.
pub open spec fn user_update_result(
    actor_id: u128,
    user_id: u128,
    display_name: Seq<char>,
    role: Seq<char>,
    active: bool,
) -> Result<(Seq<char>, Seq<char>), (u16, Seq<char>, Seq<char>)> {
    match required_text_result(display_name, display_name_label(), 100) {
        Err(e) => Err(e),
        Ok(name) => match role_result(role) {
            Err(e) => Err(e),
            Ok(r) => if actor_id == user_id && !active {
                Err(cannot_deactivate_self_error())
            } else {
                Ok((name, r))
            },
        },
    }
}

/// The change of a member checked: its display name trimmed, its role valid,
/// and the actor not deactivating themselves.
pub fn validate_user_update(actor_id: u128, user_id: u128, request: &UpdateUserRequest) -> (r:
    ApiResult<UserUpdate>)
    ensures
        match r {
            Ok(u) => u.active == request.active && user_update_result(
                actor_id,
                user_id,
                request.display_name@,
                request.role@,
                request.active,
            ) == Ok::<_, (u16, Seq<char>, Seq<char>)>((u.display_name@, u.role@)),
            Err(e) => user_update_result(
                actor_id,
                user_id,
                request.display_name@,
                request.role@,
                request.active,
            ) == Err::<(Seq<char>, Seq<char>), _>(e@),
        },
{
    let display_name = crate::auth::required_text(request.display_name.as_str(), "表示名", 100)?;
    let role = validate_role(request.role.as_str())?;
    if actor_id == user_id && !request.active {
        return Err(ApiError::conflict("CANNOT_DEACTIVATE_SELF", "自分自身を無効化できません。"));
    }
    Ok(UserUpdate { display_name, role, active: request.active })
}

/// `CANNOT_DELETE_SELF` when the actor deletes themselves.
pub fn check_user_delete(actor_id: u128, user_id: u128) -> (r: ApiResult<()>)
    ensures
        match r {
            Ok(_) => actor_id != user_id,
            Err(e) => actor_id == user_id && e@ == cannot_delete_self_error(),
        },
{
    if actor_id == user_id {
        Err(ApiError::conflict("CANNOT_DELETE_SELF", "自分自身は削除できません。"))
    } else {
        Ok(())
    }
}

/// The answer to adding a member whose e-mail address the tenant already has.
pub fn user_email_taken() -> (e: ApiError)
    ensures
        e@ == (409u16, "USER_EMAIL_EXISTS"@, "このメールアドレスは既に登録されています。"@),
{
    ApiError::conflict("USER_EMAIL_EXISTS", "このメールアドレスは既に登録されています。")
}

/// The 404 of a member that the tenant does not have.
pub fn user_not_found() -> (e: ApiError)
    ensures
        e@ == (404u16, "NOT_FOUND"@, "ユーザーが見つかりません。"@),
{
    ApiError::not_found("ユーザーが見つかりません。")
}

/// Whether a change must leave another active administrator: when an
/// administrator is demoted or deactivated.
pub open spec fn update_needs_other_admin(existing_role: Seq<char>, new_role: Seq<char>, active: bool) -> bool {
    existing_role == "admin"@ && (new_role != "admin"@ || !active)
}

/// Whether changing a member requires another active administrator.
pub fn needs_another_admin_on_update(existing_role: &str, new_role: &str, active: bool) -> (r: bool)
    ensures
        r == update_needs_other_admin(existing_role@, new_role@, active),
{
    str_eq(existing_role, "admin") && (!str_eq(new_role, "admin") || !active)
}

/// Whether deleting a member requires another active administrator: when
/// the member is an administrator.
pub fn needs_another_admin_on_delete(existing_role: &str) -> (r: bool)
    ensures
        r == (existing_role@ == "admin"@),
{
    str_eq(existing_role, "admin")
}

/// `LAST_ADMIN_REQUIRED` when no other active administrator remains.
pub fn ensure_another_admin(other_active_admins: i64) -> (r: ApiResult<()>)
    ensures
        match r {
            Ok(_) => other_active_admins != 0,
            Err(e) => other_active_admins == 0 && e@ == last_admin_error(),
        },
{
    if other_active_admins == 0 {
        Err(ApiError::conflict("LAST_ADMIN_REQUIRED", "テナントには有効な管理者が1人以上必要です。"))
    } else {
        Ok(())
    }
}

/// The next step of a change or deletion of a member, once its current role
/// is known.
#[derive(PartialEq, Eq, Structural)]
pub enum MemberChangeStep {
    /// Count the other active administrators and take the step again with
    /// the count.
    CountOtherAdmins,
    /// Write the change.
    Write,
}

/// The step of a change guarded by the last-administrator rule: when an
/// administrator is demoted or deactivated, the other active administrators
/// are counted first, and none left is `LAST_ADMIN_REQUIRED`.
pub open spec fn guarded_step(needs_other_admin: bool, other_active_admins: Option<int>) -> Result<
    MemberChangeStep,
    (u16, Seq<char>, Seq<char>),
> {
    if !needs_other_admin {
        Ok(MemberChangeStep::Write)
    } else {
        match other_active_admins {
            None => Ok(MemberChangeStep::CountOtherAdmins),
            Some(n) => if n == 0 {
                Err(last_admin_error())
            } else {
                Ok(MemberChangeStep::Write)
            },
        }
    }
}

pub open spec fn opt_count(o: Option<i64>) -> Option<int> {
    match o {
        Some(n) => Some(n as int),
        None => None,
    }
}

fn guarded(needs_other_admin: bool, other_active_admins: Option<i64>) -> (r: ApiResult<
    MemberChangeStep,
>)
    ensures
        match r {
            Ok(s) => guarded_step(needs_other_admin, opt_count(other_active_admins)) == Ok::<
                _,
                (u16, Seq<char>, Seq<char>),
            >(s),
            Err(e) => guarded_step(needs_other_admin, opt_count(other_active_admins)) == Err::<
                MemberChangeStep,
                _,
            >(e@),
        },
{
    if !needs_other_admin {
        return Ok(MemberChangeStep::Write);
    }
    match other_active_admins {
        None => Ok(MemberChangeStep::CountOtherAdmins),
        Some(n) => {
            ensure_another_admin(n)?;
            Ok(MemberChangeStep::Write)
        },
    }
}

/// The step of a checked change of a member whose current role is
/// `existing_role`, given the count of the other active administrators once
/// it has been asked for.
pub fn member_update_step(existing_role: &str, update: &UserUpdate, other_active_admins: Option<
    i64,
>) -> (r: ApiResult<MemberChangeStep>)
    ensures
        match r {
            Ok(s) => guarded_step(
                update_needs_other_admin(existing_role@, update.role@, update.active),
                opt_count(other_active_admins),
            ) == Ok::<_, (u16, Seq<char>, Seq<char>)>(s),
            Err(e) => guarded_step(
                update_needs_other_admin(existing_role@, update.role@, update.active),
                opt_count(other_active_admins),
            ) == Err::<MemberChangeStep, _>(e@),
        },
{
    let needs = needs_another_admin_on_update(existing_role, update.role.as_str(), update.active);
    guarded(needs, other_active_admins)
}

/// The step of a deletion of a member whose current role is
/// `existing_role`, given the count of the other active administrators once
/// it has been asked for.
pub fn member_delete_step(existing_role: &str, other_active_admins: Option<i64>) -> (r: ApiResult<
    MemberChangeStep,
>)
    ensures
        match r {
            Ok(s) => guarded_step(existing_role@ == "admin"@, opt_count(other_active_admins))
                == Ok::<_, (u16, Seq<char>, Seq<char>)>(s),
            Err(e) => guarded_step(existing_role@ == "admin"@, opt_count(other_active_admins))
                == Err::<MemberChangeStep, _>(e@),
        },
{
    let needs = needs_another_admin_on_delete(existing_role);
    guarded(needs, other_active_admins)
}

/// A member of a tenant, as far as administration rights go.
pub struct Member {
    pub id: u128,
    pub is_admin: bool,
    pub active: bool,
}

/// The tenant has an active administrator.
pub open spec fn has_active_admin(members: Seq<Member>) -> bool {
    exists|i: int| 0 <= i < members.len() && #[trigger] members[i].is_admin && members[i].active
}

/// The number of active administrators other than `excluded`.
pub open spec fn other_active_admins(members: Seq<Member>, excluded: u128) -> nat
    decreases members.len(),
{
    if members.len() == 0 {
        0
    } else {
        let m = members.last();
        other_active_admins(members.drop_last(), excluded) + if m.id != excluded && m.is_admin
            && m.active {
            1nat
        } else {
            0nat
        }
    }
}

/// The members after a change of `id`.
pub open spec fn apply_update(members: Seq<Member>, id: u128, is_admin: bool, active: bool) -> Seq<
    Member,
> {
    members.map_values(
        |m: Member|
            if m.id == id {
                Member { id, is_admin, active }
            } else {
                m
            },
    )
}

/// The members after `id` is deleted.
pub open spec fn apply_delete(members: Seq<Member>, id: u128) -> Seq<Member> {
    members.filter(|m: Member| m.id != id)
}

proof fn lemma_other_admin_exists(members: Seq<Member>, excluded: u128)
    requires
        other_active_admins(members, excluded) > 0,
    ensures
        exists|i: int|
            0 <= i < members.len() && members[i].id != excluded && #[trigger] members[i].is_admin
                && members[i].active,
    decreases members.len(),
{
    let m = members.last();
    if m.id != excluded && m.is_admin && m.active {
        assert(members[members.len() - 1].is_admin);
    } else {
        lemma_other_admin_exists(members.drop_last(), excluded);
        let i = choose|i: int|
            0 <= i < members.drop_last().len() && members.drop_last()[i].id != excluded
                && #[trigger] members.drop_last()[i].is_admin && members.drop_last()[i].active;
        assert(members[i] == members.drop_last()[i]);
    }
}

/// A change that keeps the member active is never refused as a
/// self-deactivation: with a display name of 1 to 100 characters after
/// trimming and the role `admin` or `member`, it is accepted as the trimmed
/// name and the role, whoever the actor is, the member themselves included.
pub proof fn lemma_active_update_accepted(
    actor_id: u128,
    user_id: u128,
    display_name: Seq<char>,
    role: Seq<char>,
)
    requires
        0 < trim(display_name).len() <= 100,
        role == "admin"@ || role == "member"@,
    ensures
        user_update_result(actor_id, user_id, display_name, role, true) == Ok::<
            _,
            (u16, Seq<char>, Seq<char>),
        >((trim(display_name), role)),
{
}

/// `CANNOT_DEACTIVATE_SELF` comes only from an actor deactivating
/// themselves.
pub proof fn lemma_self_deactivation_only(
    actor_id: u128,
    user_id: u128,
    display_name: Seq<char>,
    role: Seq<char>,
    active: bool,
)
    ensures
        user_update_result(actor_id, user_id, display_name, role, active) == Err::<
            (Seq<char>, Seq<char>),
            _,
        >(cannot_deactivate_self_error()) ==> actor_id == user_id && !active,
{
}

/// A change of a member that passes the checks of `update_user` (another
/// active administrator must remain when an administrator is demoted or
/// deactivated) leaves the tenant with an active administrator.
pub proof fn lemma_update_keeps_an_active_admin(
    members: Seq<Member>,
    target: u128,
    existing_role: Seq<char>,
    new_role: Seq<char>,
    active: bool,
)
    requires
        has_active_admin(members),
        forall|i: int|
            0 <= i < members.len() && members[i].id == target ==> #[trigger] members[i].is_admin
                == (existing_role == "admin"@),
        update_needs_other_admin(existing_role, new_role, active) ==> other_active_admins(
            members,
            target,
        ) != 0,
    ensures
        has_active_admin(apply_update(members, target, new_role == "admin"@, active)),
{
    let after = apply_update(members, target, new_role == "admin"@, active);
    if update_needs_other_admin(existing_role, new_role, active) {
        lemma_other_admin_exists(members, target);
        let i = choose|i: int|
            0 <= i < members.len() && members[i].id != target && #[trigger] members[i].is_admin
                && members[i].active;
        assert(after[i] == members[i]);
        assert(after[i].is_admin);
    } else {
        let i = choose|i: int| 0 <= i < members.len() && #[trigger] members[i].is_admin && members[i].active;
        if members[i].id == target {
            assert(existing_role == "admin"@);
            assert(after[i].is_admin);
        } else {
            assert(after[i] == members[i]);
            assert(after[i].is_admin);
        }
    }
}

/// A deletion that passes the checks of `delete_user` (another active
/// administrator must remain when an administrator is deleted) leaves the
/// tenant with an active administrator.
pub proof fn lemma_delete_keeps_an_active_admin(
    members: Seq<Member>,
    target: u128,
    existing_role: Seq<char>,
)
    requires
        has_active_admin(members),
        forall|i: int|
            0 <= i < members.len() && members[i].id == target ==> #[trigger] members[i].is_admin
                == (existing_role == "admin"@),
        existing_role == "admin"@ ==> other_active_admins(members, target) != 0,
    ensures
        has_active_admin(apply_delete(members, target)),
{
    let keep = |m: Member| m.id != target;
    let after = apply_delete(members, target);
    let i = if existing_role == "admin"@ {
        lemma_other_admin_exists(members, target);
        choose|i: int|
            0 <= i < members.len() && members[i].id != target && #[trigger] members[i].is_admin
                && members[i].active
    } else {
        choose|i: int| 0 <= i < members.len() && #[trigger] members[i].is_admin && members[i].active
    };
    assert(members[i].id != target);
    assert(keep(members[i]));
    members.lemma_filter_contains(keep, i);
    assert(after.contains(members[i]));
    let j = choose|j: int| 0 <= j < after.len() && after[j] == members[i];
    assert(after[j].is_admin);
}

/// The update step keeps the last administrator: when `member_update_step`
/// says to write a change of `target` (its count of other active
/// administrators, if asked for, taken from `members`), the tenant still has
/// an active administrator after the change.
pub proof fn lemma_update_step_keeps_an_active_admin(
    members: Seq<Member>,
    target: u128,
    existing_role: Seq<char>,
    new_role: Seq<char>,
    active: bool,
    counted: Option<int>,
)
    requires
        has_active_admin(members),
        forall|i: int|
            0 <= i < members.len() && members[i].id == target ==> #[trigger] members[i].is_admin
                == (existing_role == "admin"@),
        counted is Some ==> counted == Some(other_active_admins(members, target) as int),
        guarded_step(update_needs_other_admin(existing_role, new_role, active), counted) == Ok::<
            _,
            (u16, Seq<char>, Seq<char>),
        >(MemberChangeStep::Write),
    ensures
        has_active_admin(apply_update(members, target, new_role == "admin"@, active)),
{
    lemma_update_keeps_an_active_admin(members, target, existing_role, new_role, active);
}

/// The delete step keeps the last administrator: when `member_delete_step`
/// says to delete `target` (its count of other active administrators, if
/// asked for, taken from `members`), the tenant still has an active
/// administrator afterwards.
pub proof fn lemma_delete_step_keeps_an_active_admin(
    members: Seq<Member>,
    target: u128,
    existing_role: Seq<char>,
    counted: Option<int>,
)
    requires
        has_active_admin(members),
        forall|i: int|
            0 <= i < members.len() && members[i].id == target ==> #[trigger] members[i].is_admin
                == (existing_role == "admin"@),
        counted is Some ==> counted == Some(other_active_admins(members, target) as int),
        guarded_step(existing_role == "admin"@, counted) == Ok::<_, (u16, Seq<char>, Seq<char>)>(
            MemberChangeStep::Write,
        ),
    ensures
        has_active_admin(apply_delete(members, target)),
{
    lemma_delete_keeps_an_active_admin(members, target, existing_role);
}

} // verus!
