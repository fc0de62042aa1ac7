//! The password-reset e-mail's link and text.
use crate::text::{push_str, strip_trailing, trim_end_matches_char};
use vstd::prelude::*;

verus! {

/// The subject of the password-reset e-mail.
pub const PASSWORD_RESET_SUBJECT: &'static str = "パスワード再設定のご案内";

/// The application's base URL without trailing slashes, as links are built
/// on it.
pub fn link_base_url(app_base_url: &str) -> (r: String)
    ensures
        r@ == strip_trailing(app_base_url@, '/'),
{
    trim_end_matches_char(app_base_url, '/')
}

/// The link that opens the password-reset page for `token`.
pub fn password_reset_url(base_url: &str, token: &str) -> (r: String)
    ensures
        r@ == base_url@ + "/reset-password?token="@ + token@,
{
    let mut r = base_url.to_owned();
    push_str(&mut r, "/reset-password?token=");
    push_str(&mut r, token);
    r
}

/// The text of the password-reset e-mail.
pub open spec fn password_reset_text(tenant_name: Seq<char>, reset_url: Seq<char>) -> Seq<char> {
    tenant_name + " のパスワード再設定を受け付けました。\n\n次のURLから30分以内に新しいパスワードを設定してください。\n"@
        + reset_url + "\n\nこの操作に心当たりがない場合は、このメールを破棄してください。\n"@
}

/// The body of the password-reset e-mail for a tenant's user.
pub fn password_reset_body(tenant_name: &str, reset_url: &str) -> (r: String)
    ensures
        r@ == password_reset_text(tenant_name@, reset_url@),
{
    let mut r = tenant_name.to_owned();
    push_str(
        &mut r,
        " のパスワード再設定を受け付けました。\n\n次のURLから30分以内に新しいパスワードを設定してください。\n",
    );
    push_str(&mut r, reset_url);
    push_str(&mut r, "\n\nこの操作に心当たりがない場合は、このメールを破棄してください。\n");
    r
}

} // verus!
