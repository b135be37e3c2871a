//! Cross-origin policy for the companion web service: which client
//! type an origin registered as, and which methods and headers that
//! type is granted.
//!
//! The configuration text has the shape `origin:type,origin:type,...`;
//! reading it from the environment, and attaching the decision to the
//! transport layer, is the caller's business.

use crate::text::{
    find_spec, split, split_spec, str_eq, str_eq_ic_spec, str_eq_ignore_ascii_case, trim,
    trim_spec,
};
use vstd::prelude::*;
use vstd::string::StrSliceExecFns;

verus! {

/// The kind of client an origin registered as.
#[derive(Clone, Copy, Debug, PartialEq, Eq, Structural)]
pub enum ClientType {
    Web,
    Game,
    Mobile,
    Desktop,
    Service,
}

impl ClientType {
    /// The client type a configuration word names, compared without
    /// regard to ASCII letter case; anything unrecognized is a
    /// service.
    pub open spec fn from_spec(s: Seq<char>) -> ClientType {
        if str_eq_ic_spec(s, "web"@) {
            ClientType::Web
        } else if str_eq_ic_spec(s, "game"@) {
            ClientType::Game
        } else if str_eq_ic_spec(s, "mobile"@) {
            ClientType::Mobile
        } else if str_eq_ic_spec(s, "desktop"@) {
            ClientType::Desktop
        } else {
            ClientType::Service
        }
    }

    /// Reads a configuration word as a client type.
    pub fn from(s: &str) -> (r: ClientType)
        ensures
            r == ClientType::from_spec(s@),
    {
        if str_eq_ignore_ascii_case(s, "web") {
            ClientType::Web
        } else if str_eq_ignore_ascii_case(s, "game") {
            ClientType::Game
        } else if str_eq_ignore_ascii_case(s, "mobile") {
            ClientType::Mobile
        } else if str_eq_ignore_ascii_case(s, "desktop") {
            ClientType::Desktop
        } else {
            ClientType::Service
        }
    }
}

/// The methods granted to one client type.
pub open spec fn methods_spec(t: ClientType) -> Seq<Seq<char>> {
    match t {
        ClientType::Web => seq!["GET"@, "POST"@, "PUT"@, "DELETE"@, "OPTIONS"@],
        ClientType::Game => seq!["GET"@, "POST"@, "OPTIONS"@],
        ClientType::Mobile => seq!["GET"@, "POST"@, "PUT"@, "OPTIONS"@],
        ClientType::Desktop => seq!["GET"@, "POST"@, "PUT"@, "OPTIONS"@],
        ClientType::Service => seq!["GET"@, "POST"@, "OPTIONS"@],
    }
}

/// The request headers granted to one client type.
pub open spec fn headers_spec(t: ClientType) -> Seq<char> {
    match t {
        ClientType::Web => "Content-Type, Authorization, Accept, X-Real-IP, X-Requested-With"@,
        ClientType::Game => "Content-Type, Authorization, X-Game-Version, X-Game-Platform"@,
        ClientType::Mobile => "Content-Type, Authorization, X-App-Version, X-Device-Type"@,
        ClientType::Desktop => "Content-Type, Authorization, X-App-Version"@,
        ClientType::Service => "Content-Type, Authorization, X-Service-ID"@,
    }
}

/// What one allowed origin is granted: its client type and the methods
/// that type carries.
#[derive(Debug)]
pub struct ClientConfig {
    pub client_type: ClientType,
    pub allowed_methods: Vec<&'static str>,
}

/// One configured rule: the registered origin and what it is granted.
pub ghost struct OriginRule {
    pub origin: Seq<char>,
    pub client_type: ClientType,
}

/// The rule one `origin:type` piece of the configuration yields: the
/// text up to the first colon names the origin, the rest the client
/// type, both trimmed. A piece without a colon is ignored.
pub open spec fn rule_of_piece_spec(piece: Seq<char>) -> Option<OriginRule> {
    match find_spec(piece, ':') {
        None => None,
        Some(i) => Some(
            OriginRule {
                origin: trim_spec(piece.take(i)),
                client_type: ClientType::from_spec(
                    trim_spec(piece.skip(i + 1)),
                ),
            },
        ),
    }
}

/// The rules the configuration pieces yield, in order.
pub open spec fn rules_of_pieces_spec(ps: Seq<Seq<char>>) -> Seq<OriginRule>
    decreases ps.len(),
{
    if ps.len() == 0 {
        Seq::empty()
    } else {
        let rest = rules_of_pieces_spec(ps.drop_first());
        match rule_of_piece_spec(ps.first()) {
            Some(r) => seq![r] + rest,
            None => rest,
        }
    }
}

/// The rules a whole configuration text yields.
pub open spec fn rules_spec(config: Seq<char>) -> Seq<OriginRule> {
    rules_of_pieces_spec(split_spec(config, ','))
}

/// The client type granted to `origin`: the last matching rule wins,
/// as a later registration of the same origin overwrites an earlier
/// one.
pub open spec fn lookup_spec(rules: Seq<OriginRule>, origin: Seq<char>) -> Option<ClientType>
    decreases rules.len(),
{
    if rules.len() == 0 {
        None
    } else if rules.last().origin == origin {
        Some(rules.last().client_type)
    } else {
        lookup_spec(rules.drop_last(), origin)
    }
}

proof fn lemma_rules_snoc(ps: Seq<Seq<char>>, p: Seq<char>)
    ensures
        rules_of_pieces_spec(ps.push(p)) == rules_of_pieces_spec(ps) + (
        match rule_of_piece_spec(p) {
            Some(r) => seq![r],
            None => Seq::<OriginRule>::empty(),
        }),
    decreases ps.len(),
{
    if ps.len() == 0 {
        let d = ps.push(p).drop_first();
        assert(ps.push(p).first() == p);
        assert(d.len() == 0);
        assert(rules_of_pieces_spec(d) =~= Seq::<OriginRule>::empty());
        assert(rules_of_pieces_spec(ps) =~= Seq::<OriginRule>::empty());
        assert(rules_of_pieces_spec(ps.push(p)) =~= rules_of_pieces_spec(ps) + (
        match rule_of_piece_spec(p) {
            Some(r) => seq![r],
            None => Seq::<OriginRule>::empty(),
        }));
    } else {
        assert(ps.push(p).first() == ps.first());
        assert(ps.push(p).drop_first() =~~= ps.drop_first().push(p));
        lemma_rules_snoc(ps.drop_first(), p);
        assert(rules_of_pieces_spec(ps.push(p)) =~= rules_of_pieces_spec(ps) + (
        match rule_of_piece_spec(p) {
            Some(r) => seq![r],
            None => Seq::<OriginRule>::empty(),
        }));
    }
}

/// The cross-origin policy: every configured origin with its grant.
pub struct CORS {
    client_origins: Vec<(String, ClientConfig)>,
}

impl View for CORS {
    type V = Seq<OriginRule>;

    closed spec fn view(&self) -> Seq<OriginRule> {
        Seq::new(
            self.client_origins@.len(),
            |i: int|
                OriginRule {
                    origin: self.client_origins@[i].0@,
                    client_type: self.client_origins@[i].1.client_type,
                },
        )
    }
}

impl CORS {
    /// Every stored grant carries exactly the methods of its client
    /// type.
    #[verifier::type_invariant]
    spec fn wf(self) -> bool {
        forall|i: int|
            0 <= i < self.client_origins@.len()
                ==> (#[trigger] self.client_origins@[i].1.allowed_methods).deep_view()
                == methods_spec(self.client_origins@[i].1.client_type)
    }

    /// The methods granted to one client type.
    pub fn get_methods_for_client_type(client_type: &ClientType) -> (r: Vec<&'static str>)
        ensures
            r.deep_view() == methods_spec(*client_type),
    {
        let r: Vec<&'static str> = match client_type {
            ClientType::Web => vec!["GET", "POST", "PUT", "DELETE", "OPTIONS"],
            ClientType::Game => vec!["GET", "POST", "OPTIONS"],
            ClientType::Mobile => vec!["GET", "POST", "PUT", "OPTIONS"],
            ClientType::Desktop => vec!["GET", "POST", "PUT", "OPTIONS"],
            ClientType::Service => vec!["GET", "POST", "OPTIONS"],
        };
        proof {
            assert(r.deep_view() =~~= methods_spec(*client_type));
        }
        r
    }

    /// The request headers granted to one client type.
    pub fn get_headers_for_client_type(client_type: &ClientType) -> (r: &'static str)
        ensures
            r@ == headers_spec(*client_type),
    {
        match client_type {
            ClientType::Web => "Content-Type, Authorization, Accept, X-Real-IP, X-Requested-With",
            ClientType::Game => "Content-Type, Authorization, X-Game-Version, X-Game-Platform",
            ClientType::Mobile => "Content-Type, Authorization, X-App-Version, X-Device-Type",
            ClientType::Desktop => "Content-Type, Authorization, X-App-Version",
            ClientType::Service => "Content-Type, Authorization, X-Service-ID",
        }
    }

    /// Builds the policy from the configuration text
    /// `origin:type,origin:type,...`: one rule per piece that carries
    /// a colon, in order.
    pub fn new(origins_str: &str) -> (r: Self)
        ensures
            r@ == rules_spec(origins_str@),
    {
        let pieces = split(origins_str, ',');
        let ghost psv = pieces.deep_view();
        let mut configs: Vec<(String, ClientConfig)> = Vec::new();
        let mut i: usize = 0;
        let n = pieces.len();
        proof {
            assert(psv.take(0) =~~= Seq::<Seq<char>>::empty());
            assert(Seq::new(
                configs@.len(),
                |k: int|
                    OriginRule { origin: configs@[k].0@, client_type: configs@[k].1.client_type },
            ) =~= rules_of_pieces_spec(psv.take(0)));
        }
        while i < n
            invariant
                i <= n,
                n == pieces@.len(),
                psv == pieces.deep_view(),
                forall|k: int|
                    0 <= k < configs@.len()
                        ==> (#[trigger] configs@[k].1.allowed_methods).deep_view() == methods_spec(
                        configs@[k].1.client_type,
                    ),
                Seq::new(
                    configs@.len(),
                    |k: int|
                        OriginRule {
                            origin: configs@[k].0@,
                            client_type: configs@[k].1.client_type,
                        },
                ) == rules_of_pieces_spec(psv.take(i as int)),
            decreases n - i,
        {
            proof {
                lemma_rules_snoc(psv.take(i as int), psv[i as int]);
                assert(psv.take(i as int).push(psv[i as int]) =~~= psv.take(i as int + 1));
            }
            let ghost before = Seq::new(
                configs@.len(),
                |k: int|
                    OriginRule { origin: configs@[k].0@, client_type: configs@[k].1.client_type },
            );
            let piece = pieces[i].as_str();
            match crate::text::find_char(piece, ':') {
                Some(colon) => {
                    let plen = piece.unicode_len();
                    let origin = trim(piece.substring_char(0, colon));
                    let type_word = trim(piece.substring_char(colon + 1, plen));
                    let client_type = ClientType::from(type_word.as_str());
                    let methods = Self::get_methods_for_client_type(&client_type);
                    proof {
                        assert(piece@.subrange(0, colon as int) =~= piece@.take(colon as int));
                        assert(piece@.subrange(colon as int + 1, piece@.len() as int) =~= piece@.skip(
                            colon as int + 1,
                        ));
                    }
                    configs.push((origin, ClientConfig { client_type, allowed_methods: methods }));
                    proof {
                        assert(Seq::new(
                            configs@.len(),
                            |k: int|
                                OriginRule {
                                    origin: configs@[k].0@,
                                    client_type: configs@[k].1.client_type,
                                },
                        ) =~= rules_of_pieces_spec(psv.take(i as int + 1)));
                    }
                },
                None => {
                    proof {
                        assert(Seq::new(
                            configs@.len(),
                            |k: int|
                                OriginRule {
                                    origin: configs@[k].0@,
                                    client_type: configs@[k].1.client_type,
                                },
                        ) =~= rules_of_pieces_spec(psv.take(i as int + 1)));
                    }
                },
            }
            i = i + 1;
        }
        proof {
            assert(psv.take(n as int) =~~= psv);
        }
        let r = CORS { client_origins: configs };
        proof {
            assert(r@ =~= rules_spec(origins_str@));
        }
        r
    }

    /// The grant registered for `origin`, if any; a later registration
    /// of the same origin shadows an earlier one.
    pub fn is_origin_allowed(&self, origin: &str) -> (r: Option<&ClientConfig>)
        ensures
            (match r {
                Some(c) => lookup_spec(self@, origin@) == Some(c.client_type)
                    && c.allowed_methods.deep_view() == methods_spec(c.client_type),
                None => lookup_spec(self@, origin@) is None,
            }),
    {
        proof {
            use_type_invariant(self);
        }
        let mut j: usize = self.client_origins.len();
        proof {
            assert(self@.take(j as int) =~= self@);
        }
        while j > 0
            invariant
                j <= self.client_origins@.len(),
                lookup_spec(self@, origin@) == lookup_spec(self@.take(j as int), origin@),
                forall|k: int|
                    0 <= k < self.client_origins@.len()
                        ==> (#[trigger] self.client_origins@[k].1.allowed_methods).deep_view()
                        == methods_spec(self.client_origins@[k].1.client_type),
            decreases j,
        {
            let entry = &self.client_origins[j - 1];
            proof {
                assert(self@.take(j as int).last() == self@[j - 1]);
                assert(self@.take(j as int).drop_last() =~= self@.take(j - 1));
            }
            if str_eq(entry.0.as_str(), origin) {
                return Some(&entry.1);
            }
            j = j - 1;
        }
        proof {
            assert(self@.take(0) =~= Seq::<OriginRule>::empty());
        }
        None
    }
}

} // verus!
