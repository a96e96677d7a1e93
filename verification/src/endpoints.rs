//! The funding-account endpoints: each request value declares its method,
//! path and authentication requirement through [`Request`], and each response
//! item type has a decoder built from the verified field converters.
use vstd::prelude::*;
use crate::convert::Dec;
use crate::dispatch::{Descriptor, HttpMethod, Request};
use crate::encode::pairs_view;
use crate::errors::ClientError;
use crate::json::{
    decode_dec_field, decode_opt_dec_field, decode_opt_str_field, decode_str_field,
    decode_ts_field, field_of, get_field, spec_dec_field, spec_opt_dec_field, spec_opt_str_field,
    spec_str_field, spec_ts_field, val_model, JsonModel,
};

verus! {

/// The view of an optional string as an optional character sequence.
pub open spec fn opt_str_view(o: Option<String>) -> Option<Seq<char>> {
    match o {
        Some(s) => Some(s@),
        None => None,
    }
}

/// Get currencies.
/// Retrieve a list of all currencies.
/// Rate limit: 6 requests per second, per UserID.
/// GET /asset/currencies
pub struct GetCurrencies {
    /// Single currency or several separated with commas, e.g. BTC or BTC,ETH.
    pub ccy: Option<String>,
}

impl Default for GetCurrencies {
    fn default() -> (r: Self)
        ensures
            r.ccy is None,
    {
        GetCurrencies { ccy: None }
    }
}

impl Request for GetCurrencies {
    open spec fn spec_method(&self) -> HttpMethod {
        HttpMethod::Get
    }

    open spec fn spec_path(&self) -> Seq<char> {
        "/asset/currencies"@
    }

    open spec fn spec_auth(&self) -> bool {
        true
    }

    open spec fn spec_pairs(&self) -> Seq<(Seq<char>, Seq<char>)> {
        match self.ccy {
            Some(c) => seq![("ccy"@, c@)],
            None => Seq::empty(),
        }
    }

    fn descriptor(&self) -> (d: Descriptor) {
        Descriptor { method: HttpMethod::Get, path: "/asset/currencies".to_owned(), auth: true }
    }

    fn query_pairs(&self) -> (q: Vec<(String, String)>) {
        let mut q: Vec<(String, String)> = Vec::new();
        match &self.ccy {
            Some(c) => {
                q.push(("ccy".to_owned(), c.clone()));
            },
            None => {},
        }
        proof {
            assert(pairs_view(q@) =~= self.spec_pairs());
        }
        q
    }
}

/// Get balance.
/// Retrieve the funding account balances of the assets.
/// Rate limit: 6 requests per second, per UserID.
/// GET /asset/balances
pub struct GetFundingBalances {
    /// Single currency or several separated with commas.
    pub ccy: Option<String>,
}

impl Default for GetFundingBalances {
    fn default() -> (r: Self)
        ensures
            r.ccy is None,
    {
        GetFundingBalances { ccy: None }
    }
}

impl Request for GetFundingBalances {
    open spec fn spec_method(&self) -> HttpMethod {
        HttpMethod::Get
    }

    open spec fn spec_path(&self) -> Seq<char> {
        "/asset/balances"@
    }

    open spec fn spec_auth(&self) -> bool {
        true
    }

    open spec fn spec_pairs(&self) -> Seq<(Seq<char>, Seq<char>)> {
        match self.ccy {
            Some(c) => seq![("ccy"@, c@)],
            None => Seq::empty(),
        }
    }

    fn descriptor(&self) -> (d: Descriptor) {
        Descriptor { method: HttpMethod::Get, path: "/asset/balances".to_owned(), auth: true }
    }

    fn query_pairs(&self) -> (q: Vec<(String, String)>) {
        let mut q: Vec<(String, String)> = Vec::new();
        match &self.ccy {
            Some(c) => {
                q.push(("ccy".to_owned(), c.clone()));
            },
            None => {},
        }
        proof {
            assert(pairs_view(q@) =~= self.spec_pairs());
        }
        q
    }
}

/// Get account asset valuation.
/// Rate limit: 1 request per second, per UserID.
/// GET /asset/asset-valuation
pub struct GetAccountAssetValuation {
    /// Asset valuation calculation unit, e.g. BTC, USDT, USD; BTC by default.
    pub ccy: Option<String>,
}

impl Request for GetAccountAssetValuation {
    open spec fn spec_method(&self) -> HttpMethod {
        HttpMethod::Get
    }

    open spec fn spec_path(&self) -> Seq<char> {
        "/asset/asset-valuation"@
    }

    open spec fn spec_auth(&self) -> bool {
        true
    }

    open spec fn spec_pairs(&self) -> Seq<(Seq<char>, Seq<char>)> {
        match self.ccy {
            Some(c) => seq![("ccy"@, c@)],
            None => Seq::empty(),
        }
    }

    fn descriptor(&self) -> (d: Descriptor) {
        Descriptor {
            method: HttpMethod::Get,
            path: "/asset/asset-valuation".to_owned(),
            auth: true,
        }
    }

    fn query_pairs(&self) -> (q: Vec<(String, String)>) {
        let mut q: Vec<(String, String)> = Vec::new();
        match &self.ccy {
            Some(c) => {
                q.push(("ccy".to_owned(), c.clone()));
            },
            None => {},
        }
        proof {
            assert(pairs_view(q@) =~= self.spec_pairs());
        }
        q
    }
}

/// Get bills details (last 7 days).
/// GET /account/bills
pub struct GetAccountBills {
    /// Bill type, sent as the `type` query field.
    pub bill_type: Option<String>,
    /// Bill subtype, sent as the `subType` query field.
    pub sub_type: Option<String>,
}

impl Request for GetAccountBills {
    open spec fn spec_method(&self) -> HttpMethod {
        HttpMethod::Get
    }

    open spec fn spec_path(&self) -> Seq<char> {
        "/account/bills"@
    }

    open spec fn spec_auth(&self) -> bool {
        true
    }

    open spec fn spec_pairs(&self) -> Seq<(Seq<char>, Seq<char>)> {
        (match self.bill_type {
            Some(t) => seq![("type"@, t@)],
            None => Seq::empty(),
        }) + (match self.sub_type {
            Some(s) => seq![("subType"@, s@)],
            None => Seq::empty(),
        })
    }

    fn descriptor(&self) -> (d: Descriptor) {
        Descriptor { method: HttpMethod::Get, path: "/account/bills".to_owned(), auth: true }
    }

    fn query_pairs(&self) -> (q: Vec<(String, String)>) {
        let mut q: Vec<(String, String)> = Vec::new();
        match &self.bill_type {
            Some(t) => {
                q.push(("type".to_owned(), t.clone()));
            },
            None => {},
        }
        match &self.sub_type {
            Some(s) => {
                q.push(("subType".to_owned(), s.clone()));
            },
            None => {},
        }
        proof {
            assert(pairs_view(q@) =~= self.spec_pairs());
        }
        q
    }
}

/// Asset bills details.
/// GET /asset/bills
pub struct GetAssetBills {}

impl Default for GetAssetBills {
    fn default() -> (r: Self)
        ensures
            r == (GetAssetBills {  }),
    {
        GetAssetBills {  }
    }
}

impl Request for GetAssetBills {
    open spec fn spec_method(&self) -> HttpMethod {
        HttpMethod::Get
    }

    open spec fn spec_path(&self) -> Seq<char> {
        "/asset/bills"@
    }

    open spec fn spec_auth(&self) -> bool {
        true
    }

    open spec fn spec_pairs(&self) -> Seq<(Seq<char>, Seq<char>)> {
        Seq::empty()
    }

    fn descriptor(&self) -> (d: Descriptor) {
        Descriptor { method: HttpMethod::Get, path: "/asset/bills".to_owned(), auth: true }
    }

    fn query_pairs(&self) -> (q: Vec<(String, String)>) {
        let q: Vec<(String, String)> = Vec::new();
        proof {
            assert(pairs_view(q@) =~= self.spec_pairs());
        }
        q
    }
}

/// One entry of the currencies list.
pub struct Currency {
    pub ccy: String,
    pub name: Option<String>,
    pub chain: Option<String>,
}

/// What one currencies-list element decodes to, when its required `ccy` is a
/// string and its optional fields are absent, null or strings.
pub open spec fn spec_currency_of(j: JsonModel) -> Option<
    (Seq<char>, Option<Seq<char>>, Option<Seq<char>>),
> {
    match (
        spec_str_field(field_of(j, "ccy"@)),
        spec_opt_str_field(field_of(j, "name"@)),
        spec_opt_str_field(field_of(j, "chain"@)),
    ) {
        (Some(c), Some(n), Some(ch)) => Some((c, n, ch)),
        _ => None,
    }
}

/// Decode one element of the currencies list.
pub fn decode_currency(v: &serde_json::Value) -> (r: Result<Currency, ClientError>)
    ensures
        match spec_currency_of(val_model(*v)) {
            Some(m) => r matches Ok(c) && c.ccy@ == m.0 && opt_str_view(c.name) == m.1
                && opt_str_view(c.chain) == m.2,
            None => r matches Err(e) && e is FieldDecode,
        },
{
    let ccy = match decode_str_field(v, "ccy") {
        Ok(x) => x,
        Err(e) => {
            return Err(e);
        },
    };
    let name = match decode_opt_str_field(v, "name") {
        Ok(x) => x,
        Err(e) => {
            return Err(e);
        },
    };
    let chain = match decode_opt_str_field(v, "chain") {
        Ok(x) => x,
        Err(e) => {
            return Err(e);
        },
    };
    Ok(Currency { ccy, name, chain })
}

/// One funding-account balance entry.
pub struct FundingBalance {
    pub ccy: String,
    pub bal: Dec,
    pub avail_bal: Option<Dec>,
    pub frozen_bal: Option<Dec>,
}

/// What one balance element decodes to: a string `ccy`, a decimal `bal`, and
/// tolerant optional decimals `availBal` and `frozenBal`.
pub open spec fn spec_funding_balance_of(j: JsonModel) -> Option<
    (Seq<char>, Dec, Option<Dec>, Option<Dec>),
> {
    match (
        spec_str_field(field_of(j, "ccy"@)),
        spec_dec_field(field_of(j, "bal"@)),
        spec_opt_dec_field(field_of(j, "availBal"@)),
        spec_opt_dec_field(field_of(j, "frozenBal"@)),
    ) {
        (Some(c), Some(b), Some(a), Some(f)) => Some((c, b, a, f)),
        _ => None,
    }
}

/// Decode one element of the funding balances list.
pub fn decode_funding_balance(v: &serde_json::Value) -> (r: Result<FundingBalance, ClientError>)
    ensures
        match spec_funding_balance_of(val_model(*v)) {
            Some(m) => r matches Ok(b) && b.ccy@ == m.0 && b.bal == m.1 && b.avail_bal == m.2
                && b.frozen_bal == m.3,
            None => r matches Err(e) && e is FieldDecode,
        },
{
    let ccy = match decode_str_field(v, "ccy") {
        Ok(x) => x,
        Err(e) => {
            return Err(e);
        },
    };
    let bal = match decode_dec_field(v, "bal") {
        Ok(x) => x,
        Err(e) => {
            return Err(e);
        },
    };
    let avail_bal = match decode_opt_dec_field(v, "availBal") {
        Ok(x) => x,
        Err(e) => {
            return Err(e);
        },
    };
    let frozen_bal = match decode_opt_dec_field(v, "frozenBal") {
        Ok(x) => x,
        Err(e) => {
            return Err(e);
        },
    };
    Ok(FundingBalance { ccy, bal, avail_bal, frozen_bal })
}

/// The per-account split of the asset valuation.
pub struct AccountAssetValuationDetails {
    /// Funding account.
    pub funding: Dec,
    /// Trading account.
    pub trading: Dec,
    /// Classic account; kept for backward compatibility, the exchange may
    /// omit it, and absence is valid.
    pub classic: Option<Dec>,
    /// Earn account.
    pub earn: Dec,
}

/// What the `details` object decodes to.
pub open spec fn spec_valuation_details_of(j: JsonModel) -> Option<(Dec, Dec, Option<Dec>, Dec)> {
    match (
        spec_dec_field(field_of(j, "funding"@)),
        spec_dec_field(field_of(j, "trading"@)),
        spec_opt_dec_field(field_of(j, "classic"@)),
        spec_dec_field(field_of(j, "earn"@)),
    ) {
        (Some(f), Some(t), Some(c), Some(e)) => Some((f, t, c, e)),
        _ => None,
    }
}

/// The account asset valuation: total balance, the valuation instant in
/// epoch milliseconds, and the per-account split.
pub struct AccountAssetValuation {
    /// Valuation of total account assets.
    pub total_bal: Dec,
    /// Unix timestamp in milliseconds, e.g. 1597026383085.
    pub ts: u64,
    pub details: AccountAssetValuationDetails,
}

/// What one valuation element decodes to: a decimal `totalBal`, a
/// millisecond-string `ts`, and a `details` object.
pub open spec fn spec_valuation_of(j: JsonModel) -> Option<
    (Dec, u64, (Dec, Dec, Option<Dec>, Dec)),
> {
    match (
        spec_dec_field(field_of(j, "totalBal"@)),
        spec_ts_field(field_of(j, "ts"@)),
        field_of(j, "details"@),
    ) {
        (Some(tb), Some(ts), Some(dj)) => match spec_valuation_details_of(dj) {
            Some(d) => Some((tb, ts, d)),
            None => None,
        },
        _ => None,
    }
}

/// Decode one element of the account asset valuation list.
pub fn decode_account_asset_valuation(v: &serde_json::Value) -> (r: Result<
    AccountAssetValuation,
    ClientError,
>)
    ensures
        match spec_valuation_of(val_model(*v)) {
            Some(m) => r matches Ok(a) && a.total_bal == m.0 && a.ts == m.1 && a.details.funding
                == m.2.0 && a.details.trading == m.2.1 && a.details.classic == m.2.2
                && a.details.earn == m.2.3,
            None => r matches Err(e) && e is FieldDecode,
        },
{
    let total_bal = match decode_dec_field(v, "totalBal") {
        Ok(x) => x,
        Err(e) => {
            return Err(e);
        },
    };
    let ts = match decode_ts_field(v, "ts") {
        Ok(x) => x,
        Err(e) => {
            return Err(e);
        },
    };
    let dv = match get_field(v, "details") {
        Some(x) => x,
        None => {
            return Err(ClientError::FieldDecode { field: "details".to_owned() });
        },
    };
    let funding = match decode_dec_field(dv, "funding") {
        Ok(x) => x,
        Err(e) => {
            return Err(e);
        },
    };
    let trading = match decode_dec_field(dv, "trading") {
        Ok(x) => x,
        Err(e) => {
            return Err(e);
        },
    };
    let classic = match decode_opt_dec_field(dv, "classic") {
        Ok(x) => x,
        Err(e) => {
            return Err(e);
        },
    };
    let earn = match decode_dec_field(dv, "earn") {
        Ok(x) => x,
        Err(e) => {
            return Err(e);
        },
    };
    Ok(
        AccountAssetValuation {
            total_bal,
            ts,
            details: AccountAssetValuationDetails { funding, trading, classic, earn },
        },
    )
}

} // verus!
