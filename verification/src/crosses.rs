//! The cross-company query's request shape and its exact wire rendering.
//! Running the query itself is the surrounding application's business.
use crate::jsontext::push_dec_i64;
use crate::jsontext::push_escaped;
use crate::jsontext::push_lit;
use crate::jsontext::spec_dec_int;
use crate::jsontext::spec_escape;
use crate::jsontext::string_from_chars;
use vstd::prelude::*;

verus! {

/// A risk classification as the remote service reports it.
#[derive(Debug, Clone)]
pub struct XRisk {
    pub risk: Option<String>,
    pub symbol: Option<String>,
    pub risk_id: Option<i32>,
}

/// The arguments of the cross-company query: a company name pattern and
/// optional division and type filters.
#[derive(Debug, Clone)]
pub struct XCompanyRequest {
    pub company: String,
    pub division_ids: Option<Vec<i32>>,
    pub xcompany_type_ids: Option<Vec<i32>>,
}

/// The mathematical model of a cross-company request.
pub ghost struct XCompanyRequestView {
    pub company: Seq<char>,
    pub division_ids: Option<Seq<i32>>,
    pub xcompany_type_ids: Option<Seq<i32>>,
}

impl View for XCompanyRequest {
    type V = XCompanyRequestView;

    open spec fn view(&self) -> XCompanyRequestView {
        XCompanyRequestView {
            company: self.company@,
            division_ids: match self.division_ids {
                Some(v) => Some(v@),
                None => None,
            },
            xcompany_type_ids: match self.xcompany_type_ids {
                Some(v) => Some(v@),
                None => None,
            },
        }
    }
}

/// The comma-separated body of a JSON array of numbers.
pub open spec fn spec_ids_inner(ids: Seq<i32>) -> Seq<char>
    decreases ids.len(),
{
    if ids.len() == 0 {
        Seq::empty()
    } else if ids.len() == 1 {
        spec_dec_int(ids[0] as int)
    } else {
        spec_ids_inner(ids.drop_last()) + ","@ + spec_dec_int(ids.last() as int)
    }
}

/// An optional array of numbers: `null` when absent.
pub open spec fn spec_opt_ids_json(ids: Option<Seq<i32>>) -> Seq<char> {
    match ids {
        Some(v) => "["@ + spec_ids_inner(v) + "]"@,
        None => "null"@,
    }
}

/// The JSON object under which a cross-company request travels.
pub open spec fn spec_xcompany_json(r: XCompanyRequestView) -> Seq<char> {
    "{\"company\":\""@ + spec_escape(r.company) + "\""@ + ",\"division_ids\":"@
        + spec_opt_ids_json(r.division_ids) + ",\"xcompany_type_ids\":"@ + spec_opt_ids_json(
        r.xcompany_type_ids,
    ) + "}"@
}

/// Appends the comma-separated numbers of `ids`.
fn push_ids(out: &mut Vec<char>, ids: &Vec<i32>)
    ensures
        final(out)@ == old(out)@ + spec_ids_inner(ids@),
{
    let mut i: usize = 0;
    while i < ids.len()
        invariant
            i <= ids@.len(),
            out@ == old(out)@ + spec_ids_inner(ids@.take(i as int)),
        decreases ids@.len() - i,
    {
        let ghost done = ids@.take(i as int);
        if i > 0 {
            push_lit(out, ",");
        }
        push_dec_i64(out, ids[i] as i64);
        proof {
            let next = ids@.take(i + 1);
            assert(next.drop_last() =~= done);
            assert(next.last() == ids@[i as int]);
            if i == 0 {
                assert(out@ =~= old(out)@ + spec_ids_inner(next));
            } else {
                assert(out@ =~= old(out)@ + spec_ids_inner(next));
            }
        }
        i = i + 1;
    }
    assert(ids@.take(ids@.len() as int) =~= ids@);
}

/// Appends an optional array of numbers, `null` when absent.
fn push_opt_ids(out: &mut Vec<char>, ids: &Option<Vec<i32>>)
    ensures
        final(out)@ == old(out)@ + spec_opt_ids_json(
            match ids {
                Some(v) => Some(v@),
                None => None,
            },
        ),
{
    match ids {
        Some(v) => {
            push_lit(out, "[");
            push_ids(out, v);
            push_lit(out, "]");
        },
        None => {
            push_lit(out, "null");
        },
    }
}

impl XCompanyRequest {
    /// The exact JSON body of the cross-company remote procedure call.
    pub fn to_string(&self) -> (r: String)
        ensures
            r@ == spec_xcompany_json(self@),
    {
        let mut out: Vec<char> = Vec::new();
        push_lit(&mut out, "{\"company\":\"");
        push_escaped(&mut out, self.company.as_str());
        push_lit(&mut out, "\"");
        push_lit(&mut out, ",\"division_ids\":");
        push_opt_ids(&mut out, &self.division_ids);
        push_lit(&mut out, ",\"xcompany_type_ids\":");
        push_opt_ids(&mut out, &self.xcompany_type_ids);
        push_lit(&mut out, "}");
        proof {
            assert(out@ =~= spec_xcompany_json(self@));
        }
        string_from_chars(&out)
    }
}

} // verus!
