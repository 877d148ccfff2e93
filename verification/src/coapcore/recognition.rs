//! Recognition of the requests that the CoAP security layer handles itself, from their options.
//!
//! The options of a request are fed one by one through a small state machine; its final state
//! says whether the request is an OSCORE request (possibly carrying EDHOC), an EDHOC message to
//! `/.well-known/edhoc`, an ACE token posted to `/authz-info`, or something for the application.

use vstd::prelude::*;

verus! {

/// The OSCORE option number.
pub const OPTION_OSCORE: u16 = 9;
/// The Uri-Path option number.
pub const OPTION_URI_PATH: u16 = 11;
/// The Content-Format option number.
pub const OPTION_CONTENT_FORMAT: u16 = 12;
/// The Accept option number.
pub const OPTION_ACCEPT: u16 = 17;
/// The EDHOC option number.
pub const OPTION_EDHOC: u16 = 21;
/// The content format `application/ace+cbor`.
pub const CONTENT_FORMAT_ACE_CBOR: u8 = 19;
/// Capacity for the copy of the OSCORE option.
pub const OSCORE_OPTION_MAX_LEN: usize = 16;

/// The path segment `.well-known`.
pub open spec fn segment_well_known() -> Seq<u8> {
    seq![0x2eu8, 0x77, 0x65, 0x6c, 0x6c, 0x2d, 0x6b, 0x6e, 0x6f, 0x77, 0x6e]
}

/// The path segment `edhoc`.
pub open spec fn segment_edhoc() -> Seq<u8> {
    seq![0x65u8, 0x64, 0x68, 0x6f, 0x63]
}

/// The path segment `authz-info`.
pub open spec fn segment_authz_info() -> Seq<u8> {
    seq![0x61u8, 0x75, 0x74, 0x68, 0x7a, 0x2d, 0x69, 0x6e, 0x66, 0x6f]
}

/// What has been recognized of a request so far.
#[derive(Debug, Clone)]
pub enum Recognition {
    /// Nothing seen yet.
    Start,
    /// Seen an OSCORE option (its value is kept).
    Oscore { oscore: Vec<u8> },
    /// Seen an OSCORE option and an EDHOC option.
    Edhoc { oscore: Vec<u8> },
    /// Seen path `.well-known` (after not having seen an OSCORE option).
    WellKnown,
    /// Seen path `.well-known` and `edhoc`.
    WellKnownEdhoc,
    /// Seen path `authz-info`.
    AuthzInfo,
    /// Seen anything else.
    Unencrypted,
}

/// The abstract form of a recognition state, with the OSCORE option value as a sequence.
pub enum RecognitionView {
    Start,
    Oscore(Seq<u8>),
    Edhoc(Seq<u8>),
    WellKnown,
    WellKnownEdhoc,
    AuthzInfo,
    Unencrypted,
}

impl Recognition {
    /// The abstract form of this state.
    pub open spec fn view_rec(&self) -> RecognitionView {
        match self {
            Recognition::Start => RecognitionView::Start,
            Recognition::Oscore { oscore } => RecognitionView::Oscore(oscore@),
            Recognition::Edhoc { oscore } => RecognitionView::Edhoc(oscore@),
            Recognition::WellKnown => RecognitionView::WellKnown,
            Recognition::WellKnownEdhoc => RecognitionView::WellKnownEdhoc,
            Recognition::AuthzInfo => RecognitionView::AuthzInfo,
            Recognition::Unencrypted => RecognitionView::Unencrypted,
        }
    }
}

/// One step of recognition: the next state after an option with `number` and `value`, and
/// whether the option is left for the later check of critical options (`true`) rather than
/// consumed here.
///
/// `has_edhoc` and `parses_tokens` say whether the security configuration handles EDHOC and
/// ACE tokens; OSCORE is handled when either is.
pub open spec fn update_spec(
    state: RecognitionView,
    has_edhoc: bool,
    parses_tokens: bool,
    number: u16,
    value: Seq<u8>,
) -> (RecognitionView, bool) {
    let has_oscore = has_edhoc || parses_tokens;
    match state {
        RecognitionView::Start => if number == OPTION_OSCORE && has_oscore {
            if value.len() <= OSCORE_OPTION_MAX_LEN {
                (RecognitionView::Oscore(value), false)
            } else {
                (RecognitionView::Start, true)
            }
        } else if number == OPTION_URI_PATH && value == segment_well_known() && has_edhoc {
            (RecognitionView::WellKnown, false)
        } else if number == OPTION_URI_PATH && value == segment_authz_info() && parses_tokens {
            (RecognitionView::AuthzInfo, false)
        } else if number == OPTION_URI_PATH {
            (RecognitionView::Unencrypted, true)
        } else {
            (RecognitionView::Start, true)
        },
        RecognitionView::Oscore(o) => if number == OPTION_EDHOC && value.len() == 0 && has_edhoc {
            (RecognitionView::Edhoc(o), true)
        } else {
            (RecognitionView::Oscore(o), true)
        },
        RecognitionView::WellKnown => if number == OPTION_URI_PATH && value == segment_edhoc()
            && has_edhoc {
            (RecognitionView::WellKnownEdhoc, false)
        } else {
            (RecognitionView::WellKnown, true)
        },
        RecognitionView::AuthzInfo => if (number == OPTION_CONTENT_FORMAT || number == OPTION_ACCEPT)
            && value == seq![CONTENT_FORMAT_ACE_CBOR] && parses_tokens {
            (RecognitionView::AuthzInfo, false)
        } else {
            (RecognitionView::AuthzInfo, true)
        },
        other => (other, true),
    }
}

/// Whether `a` and `b` hold the same bytes.
pub fn slice_eq(a: &[u8], b: &[u8]) -> (r: bool)
    ensures
        r == (a@ == b@),
{
    if a.len() != b.len() {
        return false;
    }
    let mut k: usize = 0;
    while k < a.len()
        invariant
            a@.len() == b@.len(),
            k <= a@.len(),
            forall|m: int| 0 <= m < k ==> a@[m] == b@[m],
        decreases a.len() - k,
    {
        if a[k] != b[k] {
            return false;
        }
        k = k + 1;
    }
    assert(a@ =~= b@);
    true
}

impl Recognition {
    /// Given a state and an option, produces the next state and whether the option should be
    /// left for the later check of critical options.
    pub fn update(self, has_edhoc: bool, parses_tokens: bool, number: u16, value: &[u8]) -> (r: (
        Recognition,
        bool,
    ))
        ensures
            (r.0.view_rec(), r.1) == update_spec(self.view_rec(), has_edhoc, parses_tokens, number, value@),
    {
        let has_oscore = has_edhoc || parses_tokens;
        let well_known: [u8; 11] = [0x2e, 0x77, 0x65, 0x6c, 0x6c, 0x2d, 0x6b, 0x6e, 0x6f, 0x77, 0x6e];
        let edhoc: [u8; 5] = [0x65, 0x64, 0x68, 0x6f, 0x63];
        let authz_info: [u8; 10] = [0x61, 0x75, 0x74, 0x68, 0x7a, 0x2d, 0x69, 0x6e, 0x66, 0x6f];
        proof {
            assert(well_known@ =~= segment_well_known());
            assert(edhoc@ =~= segment_edhoc());
            assert(authz_info@ =~= segment_authz_info());
        }
        match self {
            Recognition::Start => {
                if number == OPTION_OSCORE && has_oscore {
                    if value.len() <= OSCORE_OPTION_MAX_LEN {
                        let mut oscore: Vec<u8> = Vec::new();
                        let mut k: usize = 0;
                        while k < value.len()
                            invariant
                                k <= value@.len(),
                                oscore@ == value@.take(k as int),
                            decreases value.len() - k,
                        {
                            oscore.push(value[k]);
                            k = k + 1;
                            assert(oscore@ =~= value@.take(k as int));
                        }
                        assert(oscore@ =~= value@);
                        (Recognition::Oscore { oscore }, false)
                    } else {
                        (Recognition::Start, true)
                    }
                } else if number == OPTION_URI_PATH && slice_eq(value, &well_known) && has_edhoc {
                    (Recognition::WellKnown, false)
                } else if number == OPTION_URI_PATH && slice_eq(value, &authz_info) && parses_tokens {
                    (Recognition::AuthzInfo, false)
                } else if number == OPTION_URI_PATH {
                    (Recognition::Unencrypted, true)
                } else {
                    (Recognition::Start, true)
                }
            },
            Recognition::Oscore { oscore } => {
                if number == OPTION_EDHOC && value.len() == 0 && has_edhoc {
                    (Recognition::Edhoc { oscore }, true)
                } else {
                    (Recognition::Oscore { oscore }, true)
                }
            },
            Recognition::WellKnown => {
                if number == OPTION_URI_PATH && slice_eq(value, &edhoc) && has_edhoc {
                    (Recognition::WellKnownEdhoc, false)
                } else {
                    (Recognition::WellKnown, true)
                }
            },
            Recognition::AuthzInfo => {
                let ace: [u8; 1] = [CONTENT_FORMAT_ACE_CBOR];
                proof {
                    assert(ace@ =~= seq![CONTENT_FORMAT_ACE_CBOR]);
                }
                if (number == OPTION_CONTENT_FORMAT || number == OPTION_ACCEPT) && slice_eq(
                    value,
                    &ace,
                ) && parses_tokens {
                    (Recognition::AuthzInfo, false)
                } else {
                    (Recognition::AuthzInfo, true)
                }
            },
            Recognition::Edhoc { oscore } => (Recognition::Edhoc { oscore }, true),
            Recognition::WellKnownEdhoc => (Recognition::WellKnownEdhoc, true),
            Recognition::Unencrypted => (Recognition::Unencrypted, true),
        }
    }

    /// Whether the options of a request in this state are only handled by the security layer
    /// (so that it reports unprocessed critical options itself).
    pub fn errors_handled_here(&self) -> (r: bool)
        ensures
            r == (self is WellKnownEdhoc || self is AuthzInfo),
    {
        match self {
            Recognition::WellKnownEdhoc | Recognition::AuthzInfo => true,
            _ => false,
        }
    }
}

/// Runs recognition from `Start` over the options of a request, given as `(number, value)` in
/// order.
pub open spec fn recognize_spec(
    has_edhoc: bool,
    parses_tokens: bool,
    options: Seq<(u16, Seq<u8>)>,
) -> RecognitionView
    decreases options.len(),
{
    if options.len() == 0 {
        RecognitionView::Start
    } else {
        let prev = recognize_spec(has_edhoc, parses_tokens, options.drop_last());
        let last = options.last();
        update_spec(prev, has_edhoc, parses_tokens, last.0, last.1).0
    }
}

/// The options left for the check of critical options by the run of recognition.
pub open spec fn leftover_spec(
    has_edhoc: bool,
    parses_tokens: bool,
    options: Seq<(u16, Seq<u8>)>,
) -> Seq<u16>
    decreases options.len(),
{
    if options.len() == 0 {
        Seq::empty()
    } else {
        let prev = recognize_spec(has_edhoc, parses_tokens, options.drop_last());
        let last = options.last();
        let rest = leftover_spec(has_edhoc, parses_tokens, options.drop_last());
        if update_spec(prev, has_edhoc, parses_tokens, last.0, last.1).1 {
            rest.push(last.0)
        } else {
            rest
        }
    }
}

/// Feeds the options of a request (in order) through recognition. Returns the final state and
/// the numbers of the options left for the check of critical options.
pub fn recognize(has_edhoc: bool, parses_tokens: bool, options: &Vec<(u16, Vec<u8>)>) -> (r: (
    Recognition,
    Vec<u16>,
))
    ensures
        r.0.view_rec() == recognize_spec(has_edhoc, parses_tokens, options.deep_view()),
        r.1@ == leftover_spec(has_edhoc, parses_tokens, options.deep_view()),
{
    let mut state = Recognition::Start;
    let mut leftover: Vec<u16> = Vec::new();
    let mut k: usize = 0;
    while k < options.len()
        invariant
            k <= options.len(),
            state.view_rec() == recognize_spec(has_edhoc, parses_tokens, options.deep_view().take(k as int)),
            leftover@ == leftover_spec(has_edhoc, parses_tokens, options.deep_view().take(k as int)),
        decreases options.len() - k,
    {
        let number = options[k].0;
        let (next, keep) = state.update(has_edhoc, parses_tokens, number, options[k].1.as_slice());
        proof {
            let ov = options.deep_view();
            assert(ov.take(k as int + 1).drop_last() =~= ov.take(k as int));
            assert(ov.take(k as int + 1).last() == ov[k as int]);
            assert(ov[k as int] == (number, options[k as int].1@));
        }
        if keep {
            leftover.push(number);
        }
        state = next;
        k = k + 1;
    }
    assert(options.deep_view().take(k as int) =~= options.deep_view());
    (state, leftover)
}

/// The Uri-Path option `authz-info`.
pub open spec fn authz_info_path_option() -> (u16, Seq<u8>) {
    (11u16, seq![0x61u8, 0x75, 0x74, 0x68, 0x7a, 0x2d, 0x69, 0x6e, 0x66, 0x6f])
}

/// A Content-Format (12) or Accept (17) option of value `application/ace+cbor` (19).
pub open spec fn is_ace_format_option(o: (u16, Seq<u8>)) -> bool {
    (o.0 == 12u16 || o.0 == 17u16) && o.1 == seq![19u8]
}

/// The numbers of the options of `options` other than those of [`is_ace_format_option`], in
/// order.
pub open spec fn numbers_except_ace_format(options: Seq<(u16, Seq<u8>)>) -> Seq<u16>
    decreases options.len(),
{
    if options.len() == 0 {
        Seq::empty()
    } else {
        let rest = numbers_except_ace_format(options.drop_last());
        if is_ace_format_option(options.last()) {
            rest
        } else {
            rest.push(options.last().0)
        }
    }
}

/// On a server that processes ACE tokens, a request whose first option is the Uri-Path
/// `authz-info` is recognized as a token request, whether or not the server also handles EDHOC
/// and whatever options follow. That first option is consumed, and so is every following
/// Content-Format or Accept option of value `application/ace+cbor`; all others are left for the
/// check of critical options.
pub proof fn lemma_authz_info_recognized(has_edhoc: bool, rest: Seq<(u16, Seq<u8>)>)
    ensures
        recognize_spec(has_edhoc, true, seq![authz_info_path_option()] + rest) == RecognitionView::AuthzInfo,
        leftover_spec(has_edhoc, true, seq![authz_info_path_option()] + rest) == numbers_except_ace_format(rest),
    decreases rest.len(),
{
    let a = seq![authz_info_path_option()];
    if rest.len() == 0 {
        assert(a + rest =~= a);
        assert(a.drop_last() =~= Seq::<(u16, Seq<u8>)>::empty());
        assert(a.last() == authz_info_path_option());
        assert(authz_info_path_option().1 =~= segment_authz_info());
        assert(authz_info_path_option().1.len() != segment_well_known().len());
        assert(recognize_spec(has_edhoc, true, a.drop_last()) == RecognitionView::Start);
        assert(update_spec(RecognitionView::Start, has_edhoc, true, 11u16, segment_authz_info()) == (
        RecognitionView::AuthzInfo, false));
        assert(recognize_spec(has_edhoc, true, a) == RecognitionView::AuthzInfo);
        assert(leftover_spec(has_edhoc, true, a.drop_last()) =~= Seq::<u16>::empty());
        assert(leftover_spec(has_edhoc, true, a) =~= Seq::<u16>::empty());
        assert(numbers_except_ace_format(rest) =~= Seq::<u16>::empty());
    } else {
        lemma_authz_info_recognized(has_edhoc, rest.drop_last());
        let all = a + rest;
        assert(all.drop_last() =~= a + rest.drop_last());
        assert(all.last() == rest.last());
        assert(recognize_spec(has_edhoc, true, all.drop_last()) == RecognitionView::AuthzInfo);
    }
}

} // verus!
