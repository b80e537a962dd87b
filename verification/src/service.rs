use vstd::prelude::*;

verus! {

/// The paths the service mounts, in mounting order: the public index, login
/// and logout; the admin panel and its record API (list and create on one
/// path, update and delete on the per-id path); and the draw page with its
/// draw API.
pub fn routes() -> (r: Vec<&'static str>)
    ensures
        r@.len() == 10,
        r@[0]@ == "/"@,
        r@[1]@ == "/login"@,
        r@[2]@ == "/logout"@,
        r@[3]@ == "/admin"@,
        r@[4]@ == "/admin/api/codes"@,
        r@[5]@ == "/admin/api/codes"@,
        r@[6]@ == "/admin/api/codes/<id>"@,
        r@[7]@ == "/admin/api/codes/<id>"@,
        r@[8]@ == "/secret_santa"@,
        r@[9]@ == "/secret_santa/api/draw"@,
{
    let mut r: Vec<&'static str> = Vec::new();
    r.push("/");
    r.push("/login");
    r.push("/logout");
    r.push("/admin");
    r.push("/admin/api/codes");
    r.push("/admin/api/codes");
    r.push("/admin/api/codes/<id>");
    r.push("/admin/api/codes/<id>");
    r.push("/secret_santa");
    r.push("/secret_santa/api/draw");
    r
}

} // verus!
