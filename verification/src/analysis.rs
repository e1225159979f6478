//! Assistant requests for the LCF/PCA analyses of the Data workspace: the
//! checks made before the selection changes or a calculation runs.
use vstd::prelude::*;
use crate::text::{str_eq, views};

verus! {

/// The analysis a request runs.
#[derive(Clone, Copy, Debug, PartialEq, Eq, Structural)]
pub enum AnalysisTool {
    Lcf,
    Pca,
}

/// The space in which spectra are compared.
#[derive(Clone, Copy, Debug, PartialEq, Eq, Structural)]
pub enum LcfSpace {
    Norm,
    Flat,
    Deriv,
    Chi,
}

/// A request to run an analysis. Group identifiers are their text form.
/// `range_valid` says that the optional bound pair is absent or finite and
/// increasing; the bounds themselves are checked where they are read.
#[derive(Clone, Debug)]
pub struct AnalysisRequest {
    pub method: String,
    pub target_group_id: String,
    pub reference_group_ids: Vec<String>,
    pub space: String,
    pub range_valid: bool,
    pub sum_to_one: bool,
    pub fit_energy_shifts: bool,
    pub components: Option<usize>,
    pub center: bool,
}

/// The default comparison space.
pub fn normalized() -> (r: String)
    ensures
        r@ == "norm"@,
{
    String::from_str("norm")
}

/// The default of flags that are on unless turned off.
pub fn yes() -> (r: bool)
    ensures
        r,
{
    true
}

pub open spec fn tool_of(method: Seq<char>) -> Option<AnalysisTool> {
    if method == "lcf"@ {
        Some(AnalysisTool::Lcf)
    } else if method == "pca"@ {
        Some(AnalysisTool::Pca)
    } else {
        None
    }
}

pub open spec fn space_of(space: Seq<char>) -> Option<LcfSpace> {
    if space == "norm"@ {
        Some(LcfSpace::Norm)
    } else if space == "flat"@ {
        Some(LcfSpace::Flat)
    } else if space == "derivative"@ {
        Some(LcfSpace::Deriv)
    } else if space == "chi"@ {
        Some(LcfSpace::Chi)
    } else {
        None
    }
}

/// At least two references, each named once, none of them the target.
pub open spec fn distinct_references(refs: Seq<Seq<char>>, target: Seq<char>) -> bool {
    refs.len() >= 2 && refs.no_duplicates() && !refs.contains(target)
}

impl AnalysisRequest {
    /// The analysis and space a request asks for, or why it is refused.
    pub open spec fn validation(self) -> Result<(AnalysisTool, LcfSpace), Seq<char>> {
        let refs = views(self.reference_group_ids@);
        match tool_of(self.method@) {
            None => Err("Choose lcf or pca"@),
            Some(tool) => match space_of(self.space@) {
                None => Err("Choose norm, flat, derivative or chi"@),
                Some(space) => if !distinct_references(refs, self.target_group_id@) {
                    Err("Choose at least two distinct references, excluding the target group"@)
                } else if !self.range_valid {
                    Err("Range bounds must be finite and increasing"@)
                } else if tool == AnalysisTool::Pca && (match self.components {
                    Some(n) => n == 0 || n > refs.len(),
                    None => true,
                }) {
                    Err("PCA components must be between one and the number of training groups"@)
                } else if tool == AnalysisTool::Lcf && (self.components is Some || self.center) {
                    Err("components and center apply only to PCA"@)
                } else if tool == AnalysisTool::Pca && self.fit_energy_shifts {
                    Err("PCA does not fit energy shifts"@)
                } else {
                    Ok((tool, space))
                },
            },
        }
    }

    pub fn validate(&self) -> (r: Result<(AnalysisTool, LcfSpace), String>)
        ensures
            match self.validation() {
                Ok(v) => r matches Ok(x) && x == v,
                Err(e) => r matches Err(x) && x@ == e,
            },
    {
        let tool = if str_eq(self.method.as_str(), "lcf") {
            AnalysisTool::Lcf
        } else if str_eq(self.method.as_str(), "pca") {
            AnalysisTool::Pca
        } else {
            return Err(String::from_str("Choose lcf or pca"));
        };
        let s = self.space.as_str();
        let space = if str_eq(s, "norm") {
            LcfSpace::Norm
        } else if str_eq(s, "flat") {
            LcfSpace::Flat
        } else if str_eq(s, "derivative") {
            LcfSpace::Deriv
        } else if str_eq(s, "chi") {
            LcfSpace::Chi
        } else {
            return Err(String::from_str("Choose norm, flat, derivative or chi"));
        };
        if !distinct(&self.reference_group_ids, self.target_group_id.as_str()) {
            return Err(
                String::from_str("Choose at least two distinct references, excluding the target group"),
            );
        }
        if !self.range_valid {
            return Err(String::from_str("Range bounds must be finite and increasing"));
        }
        let count = self.reference_group_ids.len();
        let bad_rank = match self.components {
            Some(n) => n == 0 || n > count,
            None => true,
        };
        if tool == AnalysisTool::Pca && bad_rank {
            return Err(
                String::from_str("PCA components must be between one and the number of training groups"),
            );
        }
        if tool == AnalysisTool::Lcf && (self.components.is_some() || self.center) {
            return Err(String::from_str("components and center apply only to PCA"));
        }
        if tool == AnalysisTool::Pca && self.fit_energy_shifts {
            return Err(String::from_str("PCA does not fit energy shifts"));
        }
        Ok((tool, space))
    }
}

/// Whether `refs` names at least two groups, each once, none of them `target`.
fn distinct(refs: &Vec<String>, target: &str) -> (r: bool)
    ensures
        r == distinct_references(views(refs@), target@),
{
    let n = refs.len();
    let ghost v = views(refs@);
    if n < 2 {
        return false;
    }
    let mut i: usize = 0;
    while i < n
        invariant
            n == refs@.len(),
            v == views(refs@),
            n >= 2,
            i <= n,
            forall|a: int, b: int| 0 <= a < i && 0 <= b < n && a != b ==> v[a] != v[b],
            forall|a: int| 0 <= a < i ==> v[a] != target@,
        decreases n - i,
    {
        assert(v[i as int] == refs@[i as int]@);
        if str_eq(refs[i].as_str(), target) {
            assert(v.contains(target@));
            return false;
        }
        let mut j: usize = 0;
        while j < n
            invariant
                n == refs@.len(),
                v == views(refs@),
                i < n,
                j <= n,
                forall|b: int| 0 <= b < j && b != i ==> v[i as int] != v[b],
            decreases n - j,
        {
            assert(v[j as int] == refs@[j as int]@);
            assert(v[i as int] == refs@[i as int]@);
            if j != i && str_eq(refs[i].as_str(), refs[j].as_str()) {
                assert(!v.no_duplicates());
                return false;
            }
            j = j + 1;
        }
        i = i + 1;
    }
    true
}

/// What the readiness check reads of one operand (a reference group or the target).
pub struct OperandStatus {
    /// The operand's label in messages about plots.
    pub label: String,
    /// Its catalog entry label in messages about processing.
    pub entry_label: String,
    /// Its plots were inspected at Normalize.
    pub normalize_inspected: bool,
    /// Its plots were inspected at Background.
    pub background_inspected: bool,
    /// Its current processing is cached.
    pub cached: bool,
}

/// Why an operand is not ready: its plots must have been inspected at
/// Normalize (and Background, for χ space) and its current processing must
/// be cached.
pub open spec fn operand_error(o: OperandStatus, space: LcfSpace) -> Option<Seq<char>> {
    if !(o.normalize_inspected && (space != LcfSpace::Chi || o.background_inspected)) {
        Some(
            "Navigate to "@ + o.label@ + " and call xray_get_plots in Normalize"@ + (if space
                == LcfSpace::Chi {
                " and Background"@
            } else {
                seq![]
            }) + " before analysis"@,
        )
    } else if !o.cached {
        Some("Navigate to "@ + o.entry_label@ + " and inspect its current processing before analysis"@)
    } else {
        None
    }
}

/// The first operand error from index `i` on.
pub open spec fn first_operand_error(operands: Seq<OperandStatus>, space: LcfSpace, i: int) -> Option<Seq<char>>
    decreases operands.len() - i,
{
    if i < 0 || i >= operands.len() {
        None
    } else {
        match operand_error(operands[i], space) {
            Some(e) => Some(e),
            None => first_operand_error(operands, space, i + 1),
        }
    }
}

/// Why an analysis cannot run now, checked in this order: jobs are running,
/// the target is not the current group, a reference is the standalone
/// spectrum, or an operand (references, then the target) is not ready.
pub open spec fn readiness_error(
    jobs_running: bool,
    target_is_current: bool,
    standalone_reference: bool,
    operands: Seq<OperandStatus>,
    space: LcfSpace,
) -> Option<Seq<char>> {
    if jobs_running {
        Some("Wait for current processing and analysis jobs to finish"@)
    } else if !target_is_current {
        Some("Navigate to target_group_id and inspect its processing first"@)
    } else if standalone_reference {
        Some("Import the standalone reference into Groups before using it in LCF/PCA"@)
    } else {
        first_operand_error(operands, space, 0)
    }
}

fn operand_check(o: &OperandStatus, space: LcfSpace) -> (r: Option<String>)
    ensures
        match r {
            Some(e) => operand_error(*o, space) == Some(e@),
            None => operand_error(*o, space) is None,
        },
{
    if !(o.normalize_inspected && (space != LcfSpace::Chi || o.background_inspected)) {
        let mut e = String::from_str("Navigate to ");
        e.append(o.label.as_str());
        e.append(" and call xray_get_plots in Normalize");
        let ghost head = e@;
        if space == LcfSpace::Chi {
            e.append(" and Background");
        } else {
            assert(head + seq![] =~= head);
        }
        e.append(" before analysis");
        Some(e)
    } else if !o.cached {
        let mut e = String::from_str("Navigate to ");
        e.append(o.entry_label.as_str());
        e.append(" and inspect its current processing before analysis");
        Some(e)
    } else {
        None
    }
}

/// Whether an analysis may run now (see [`readiness_error`]).
pub fn analysis_ready(
    jobs_running: bool,
    target_is_current: bool,
    standalone_reference: bool,
    operands: &Vec<OperandStatus>,
    space: LcfSpace,
) -> (r: Result<(), String>)
    ensures
        match r {
            Ok(_) => readiness_error(jobs_running, target_is_current, standalone_reference, operands@, space) is None,
            Err(e) => readiness_error(jobs_running, target_is_current, standalone_reference, operands@, space)
                == Some(e@),
        },
{
    if jobs_running {
        return Err(String::from_str("Wait for current processing and analysis jobs to finish"));
    }
    if !target_is_current {
        return Err(String::from_str("Navigate to target_group_id and inspect its processing first"));
    }
    if standalone_reference {
        return Err(
            String::from_str("Import the standalone reference into Groups before using it in LCF/PCA"),
        );
    }
    let n = operands.len();
    let mut i: usize = 0;
    while i < n
        invariant
            n == operands@.len(),
            i <= n,
            !jobs_running && target_is_current && !standalone_reference,
            first_operand_error(operands@, space, 0) == first_operand_error(operands@, space, i as int),
        decreases n - i,
    {
        match operand_check(&operands[i], space) {
            Some(e) => {
                return Err(e);
            },
            None => {},
        }
        i = i + 1;
    }
    Ok(())
}

/// No analysis runs on an operand whose processing the assistant has not
/// inspected: when the check passes, every operand's plots were inspected at
/// Normalize (and Background, in χ space) and its processing is cached.
pub proof fn law_analysis_needs_inspected_operands(
    jobs_running: bool,
    target_is_current: bool,
    standalone_reference: bool,
    operands: Seq<OperandStatus>,
    space: LcfSpace,
)
    requires
        readiness_error(jobs_running, target_is_current, standalone_reference, operands, space) is None,
    ensures
        !jobs_running && target_is_current && !standalone_reference,
        forall|k: int|
            0 <= k < operands.len() ==> (#[trigger] operands[k]).normalize_inspected && (space
                == LcfSpace::Chi ==> operands[k].background_inspected) && operands[k].cached,
{
    lemma_no_operand_error(operands, space, 0);
}

proof fn lemma_no_operand_error(operands: Seq<OperandStatus>, space: LcfSpace, i: int)
    requires
        0 <= i,
        first_operand_error(operands, space, i) is None,
    ensures
        forall|k: int| i <= k < operands.len() ==> operand_error(#[trigger] operands[k], space) is None,
    decreases operands.len() - i,
{
    if i < operands.len() {
        lemma_no_operand_error(operands, space, i + 1);
    }
}

/// A validated request runs the analysis and the space it names: "lcf" is
/// linear combination fitting and "pca" principal components; "norm",
/// "flat", "derivative" and "chi" are the normalized, flattened, derivative
/// and χ(k) spaces.
pub proof fn law_validated_request_uses_the_named_space(req: AnalysisRequest)
    requires
        req.validation() is Ok,
    ensures
        ({
            let (tool, space) = req.validation()->Ok_0;
            &&& req.method@ == "lcf"@ ==> tool == AnalysisTool::Lcf
            &&& req.method@ == "pca"@ ==> tool == AnalysisTool::Pca
            &&& req.space@ == "norm"@ ==> space == LcfSpace::Norm
            &&& req.space@ == "flat"@ ==> space == LcfSpace::Flat
            &&& req.space@ == "derivative"@ ==> space == LcfSpace::Deriv
            &&& req.space@ == "chi"@ ==> space == LcfSpace::Chi
        }),
{
    reveal_strlit("lcf");
    reveal_strlit("pca");
    reveal_strlit("norm");
    reveal_strlit("flat");
    reveal_strlit("derivative");
    reveal_strlit("chi");
    assert("lcf"@[0] != "pca"@[0]);
    assert("norm"@[0] != "flat"@[0]);
    assert("norm"@.len() != "derivative"@.len());
    assert("norm"@[0] != "chi"@[0]);
    assert("flat"@.len() != "derivative"@.len());
    assert("flat"@[0] != "chi"@[0]);
    assert("derivative"@.len() != "chi"@.len());
}

/// A request is accepted exactly when it is well formed: it asks for LCF
/// or PCA in one of the four spaces, names at least two distinct references
/// other than the target, has a valid range, gives PCA a component count
/// between one and the number of references and no energy-shift fit, and
/// gives LCF neither a component count nor centering. An unknown method or
/// space is refused by naming the choices.
pub proof fn law_validation_accepts_exactly_well_formed_requests(req: AnalysisRequest)
    ensures
        ({
            let refs = views(req.reference_group_ids@);
            let m = req.method@;
            let sp = req.space@;
            req.validation() is Ok <==> {
                &&& m == "lcf"@ || m == "pca"@
                &&& sp == "norm"@ || sp == "flat"@ || sp == "derivative"@ || sp == "chi"@
                &&& refs.len() >= 2 && refs.no_duplicates() && !refs.contains(req.target_group_id@)
                &&& req.range_valid
                &&& m == "pca"@ ==> (req.components matches Some(n) && 1 <= n <= refs.len()
                    && !req.fit_energy_shifts)
                &&& m == "lcf"@ ==> (req.components is None && !req.center)
            }
        }),
        !(req.method@ == "lcf"@ || req.method@ == "pca"@) ==> req.validation() == Err::<(AnalysisTool, LcfSpace), Seq<char>>(
            "Choose lcf or pca"@,
        ),
        (req.method@ == "lcf"@ || req.method@ == "pca"@) && !(req.space@ == "norm"@ || req.space@
            == "flat"@ || req.space@ == "derivative"@ || req.space@ == "chi"@) ==> req.validation()
            == Err::<(AnalysisTool, LcfSpace), Seq<char>>("Choose norm, flat, derivative or chi"@),
{
    reveal_strlit("lcf");
    reveal_strlit("pca");
    assert("lcf"@[0] != "pca"@[0]);
}

} // verus!
