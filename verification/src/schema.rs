//! Schema descriptors: per-field configuration and its resolution into an
//! ordered column list.

use vstd::prelude::*;

verus! {

/// Per-field configuration: rename, skip, default-on-missing, explicit order.
#[derive(Debug, PartialEq)]
pub struct FieldAttrs {
    /// Encode the field under this column name instead of its own.
    pub rename: Option<String>,
    /// Leave the field out of the schema entirely.
    pub skip: bool,
    /// On decode, fall back to the type's default when the column is absent.
    pub default: bool,
    /// Sort the column by this value; columns with an explicit order come
    /// before all columns without one.
    pub order: Option<usize>,
}

/// The mathematical model of `FieldAttrs`.
pub struct FieldAttrsV {
    pub rename: Option<Seq<char>>,
    pub skip: bool,
    pub default: bool,
    pub order: Option<usize>,
}

impl View for FieldAttrs {
    type V = FieldAttrsV;

    open spec fn view(&self) -> FieldAttrsV {
        FieldAttrsV {
            rename: match self.rename {
                Some(ref r) => Some(r@),
                None => None,
            },
            skip: self.skip,
            default: self.default,
            order: self.order,
        }
    }
}

impl Default for FieldAttrs {
    /// No rename, no skip, no default fallback, no explicit order.
    fn default() -> (r: FieldAttrs)
        ensures
            r@ == (FieldAttrsV { rename: None, skip: false, default: false, order: None }),
    {
        FieldAttrs { rename: None, skip: false, default: false, order: None }
    }
}

/// The scalar type a column's cells convert to and from.
#[derive(Clone, Copy, PartialEq, Eq, Structural, Debug)]
pub enum CellType {
    Bool,
    I64,
    U64,
    F64,
    Str,
    OptBool,
    OptI64,
    OptU64,
    OptF64,
    OptStr,
}

/// One field of a record type: its name, its configuration, and the scalar
/// type its cells take.
#[derive(Debug, PartialEq)]
pub struct FieldDef {
    pub name: String,
    pub attrs: FieldAttrs,
    pub ty: CellType,
}

/// The mathematical model of a `FieldDef`.
pub struct FieldDefV {
    pub name: Seq<char>,
    pub attrs: FieldAttrsV,
    pub ty: CellType,
}

impl View for FieldDef {
    type V = FieldDefV;

    open spec fn view(&self) -> FieldDefV {
        FieldDefV { name: self.name@, attrs: self.attrs@, ty: self.ty }
    }
}

/// One resolved column: which field it reads, the name it appears under, and
/// its decode policy.
#[derive(Debug, PartialEq)]
pub struct ColumnDesc {
    pub source: usize,
    pub name: String,
    pub default: bool,
    pub ty: CellType,
}

/// The mathematical model of a `ColumnDesc`.
pub struct ColumnDescV {
    pub source: int,
    pub name: Seq<char>,
    pub default: bool,
    pub ty: CellType,
}

impl View for ColumnDesc {
    type V = ColumnDescV;

    open spec fn view(&self) -> ColumnDescV {
        ColumnDescV { source: self.source as int, name: self.name@, default: self.default, ty: self.ty }
    }
}

/// The models of a field list, in declaration order.
pub open spec fn fields_views(fields: Seq<FieldDef>) -> Seq<FieldDefV> {
    Seq::new(fields.len(), |k: int| fields[k]@)
}

/// The name field `fd` appears under: its rename when configured, else its
/// own name.
pub open spec fn column_name_of(fd: FieldDefV) -> Seq<char> {
    match fd.attrs.rename {
        Some(r) => r,
        None => fd.name,
    }
}

/// The column descriptor that field `i` of `fields` resolves to.
pub open spec fn column_of(fields: Seq<FieldDefV>, i: int) -> ColumnDescV {
    ColumnDescV {
        source: i,
        name: column_name_of(fields[i]),
        default: fields[i].attrs.default,
        ty: fields[i].ty,
    }
}

/// The strict total order that sorts columns: a field with an explicit order
/// comes before one without; two explicit orders compare by value, then by
/// declaration position; two fields without explicit orders keep declaration
/// order.
pub open spec fn precedes(fields: Seq<FieldDefV>, i: int, j: int) -> bool {
    match (fields[i].attrs.order, fields[j].attrs.order) {
        (Some(a), Some(b)) => a < b || (a == b && i < j),
        (Some(_), None) => true,
        (None, Some(_)) => false,
        (None, None) => i < j,
    }
}

/// `precedes` relates every pair of distinct positions one way or the other.
pub proof fn lemma_precedes_total(fields: Seq<FieldDefV>, i: int, j: int)
    requires
        i != j,
    ensures
        precedes(fields, i, j) || precedes(fields, j, i),
        !(precedes(fields, i, j) && precedes(fields, j, i)),
{
}

/// `precedes` is transitive.
pub proof fn lemma_precedes_trans(fields: Seq<FieldDefV>, i: int, j: int, k: int)
    requires
        precedes(fields, i, j),
        precedes(fields, j, k),
    ensures
        precedes(fields, i, k),
{
}

/// Whether `cols` is a sound resolution of `fields`: every descriptor comes
/// from a non-skipped field, every non-skipped field has a descriptor, and
/// descriptors stand in sorted order.
pub open spec fn schema_wf(fields: Seq<FieldDefV>, cols: Seq<ColumnDescV>) -> bool {
    &&& forall|j: int|
        0 <= j < cols.len() ==> 0 <= #[trigger] cols[j].source < fields.len()
            && !fields[cols[j].source].attrs.skip && cols[j] == column_of(fields, cols[j].source)
    &&& forall|i: int|
        0 <= i < fields.len() && !(#[trigger] fields[i].attrs.skip) ==> exists|j: int|
            0 <= j < cols.len() && #[trigger] cols[j].source == i
    &&& forall|j1: int, j2: int|
        0 <= j1 < j2 < cols.len() ==> precedes(fields, #[trigger] cols[j1].source, #[trigger] cols[j2].source)
}

/// An immutable schema: the record type's fields in declaration order, and
/// the resolved columns in table order.
#[derive(Debug, PartialEq)]
pub struct Schema {
    fields: Vec<FieldDef>,
    cols: Vec<ColumnDesc>,
}

impl Schema {
    /// The fields' models, in declaration order.
    pub closed spec fn fields_v(&self) -> Seq<FieldDefV> {
        fields_views(self.fields@)
    }

    /// The resolved columns' models, in table order.
    pub closed spec fn cols_v(&self) -> Seq<ColumnDescV> {
        Seq::new(self.cols@.len(), |i: int| self.cols@[i]@)
    }

    /// The column names, in table order.
    pub open spec fn names_v(&self) -> Seq<Seq<char>> {
        Seq::new(self.cols_v().len(), |j: int| self.cols_v()[j].name)
    }

    /// The schema resolves its fields soundly; holds of every constructed
    /// schema.
    pub open spec fn wf(&self) -> bool {
        schema_wf(self.fields_v(), self.cols_v())
    }

    /// How many fields the record type declares.
    pub fn field_count(&self) -> (r: usize)
        ensures
            r == self.fields_v().len(),
    {
        self.fields.len()
    }

    /// How many columns the schema resolves to.
    pub fn column_count(&self) -> (r: usize)
        ensures
            r == self.cols_v().len(),
    {
        self.cols.len()
    }

    /// The field model at a position.
    pub fn field_at(&self, i: usize) -> (r: &FieldDef)
        requires
            i < self.fields_v().len(),
        ensures
            r@ == self.fields_v()[i as int],
    {
        &self.fields[i]
    }

    /// The column descriptor at a position.
    pub fn column_at(&self, j: usize) -> (r: &ColumnDesc)
        requires
            j < self.cols_v().len(),
        ensures
            r@ == self.cols_v()[j as int],
    {
        &self.cols[j]
    }

    /// Resolves a record type's fields into a schema: skipped fields drop
    /// out, renames apply, and columns sort by the `precedes` order — explicit
    /// orders first, ascending, ties and the rest in declaration order.
#[verifier::rlimit(100)]
    #[verifier::loop_isolation(false)]
    pub fn new(fields: Vec<FieldDef>) -> (r: Schema)
        ensures
            r.fields_v() == fields_views(fields@),
            r.wf(),
    {
        let ghost fv = fields_views(fields@);
        let n = fields.len();
        let mut cols: Vec<ColumnDesc> = Vec::new();
        let mut i: usize = 0;
        while i < n
            invariant
                n == fields@.len(),
                fv == fields_views(fields@),
                0 <= i <= n,
                forall|j: int|
                    0 <= j < cols@.len() ==> 0 <= #[trigger] cols@[j]@.source < i as int
                        && !fv[cols@[j]@.source].attrs.skip && cols@[j]@ == column_of(
                        fv,
                        cols@[j]@.source,
                    ),
                forall|k: int|
                    0 <= k < i as int && !(#[trigger] fv[k].attrs.skip) ==> exists|j: int|
                        0 <= j < cols@.len() && #[trigger] cols@[j]@.source == k,
                forall|j1: int, j2: int|
                    0 <= j1 < j2 < cols@.len() ==> precedes(
                        fv,
                        #[trigger] cols@[j1]@.source,
                        #[trigger] cols@[j2]@.source,
                    ),
        decreases n - i,
        {
            if !fields[i].attrs.skip {
                let name: String = match &fields[i].attrs.rename {
                    Some(r) => r.clone(),
                    None => fields[i].name.clone(),
                };
                let col = ColumnDesc {
                    source: i,
                    name,
                    default: fields[i].attrs.default,
                    ty: fields[i].ty,
                };
                let ghost gc = col;
                let ghost oc = cols@;
                proof {
                    assert(gc@ == column_of(fv, i as int));
                }
                insert_sorted(&fields, &mut cols, col);
                proof {
                    lemma_resolve_step(fv, oc, cols@, gc, i as int);
                }
            }
            i = i + 1;
        }
        let ghost gcols = cols@;
        let r = Schema { fields, cols };
        proof {
            assert(r.fields_v() =~= fv);
            assert forall|j: int| 0 <= j < r.cols_v().len() implies #[trigger] r.cols_v()[j]
                == gcols[j]@ by {}
            lemma_resolve_done(fv, gcols, r.cols_v());
            assert(schema_wf(r.fields_v(), r.cols_v()));
        }
        r
    }

    /// The column names in schema order, for callers that print a header
    /// without any record at hand.
    #[verifier::loop_isolation(false)]
    pub fn columns(&self) -> (r: Vec<String>)
        ensures
            r@.len() == self.names_v().len(),
            forall|j: int| 0 <= j < r@.len() ==> #[trigger] r@[j]@ == self.names_v()[j],
    {
        let mut out: Vec<String> = Vec::new();
        let n = self.cols.len();
        let mut j: usize = 0;
        while j < n
            invariant
                n == self.cols@.len(),
                0 <= j <= n,
                out@.len() == j,
                forall|k: int| 0 <= k < j as int ==> #[trigger] out@[k]@ == self.names_v()[k],
        decreases n - j,
        {
            out.push(self.cols[j].name.clone());
            j = j + 1;
        }
        out
    }
}

/// One resolution step keeps the column list sound: after inserting field
/// `i`'s descriptor, every descriptor still comes from a non-skipped field
/// below `i + 1`, and every non-skipped field below `i + 1` has one.
proof fn lemma_resolve_step(
    fv: Seq<FieldDefV>,
    oc: Seq<ColumnDesc>,
    nc: Seq<ColumnDesc>,
    gc: ColumnDesc,
    i: int,
)
    requires
        0 <= i < fv.len(),
        gc@ == column_of(fv, i),
        !fv[i].attrs.skip,
        forall|j: int|
            0 <= j < oc.len() ==> 0 <= #[trigger] oc[j]@.source < i && !fv[oc[j]@.source].attrs.skip
                && oc[j]@ == column_of(fv, oc[j]@.source),
        forall|k: int|
            0 <= k < i && !(#[trigger] fv[k].attrs.skip) ==> exists|j: int|
                0 <= j < oc.len() && #[trigger] oc[j]@.source == k,
        nc.len() == oc.len() + 1,
        forall|j: int|
            0 <= j < nc.len() ==> #[trigger] nc[j] == gc || exists|q: int|
                0 <= q < oc.len() && nc[j] == oc[q],
        forall|q: int|
            0 <= q < oc.len() ==> exists|j: int| 0 <= j < nc.len() && nc[j] == #[trigger] oc[q],
        exists|j: int| 0 <= j < nc.len() && #[trigger] nc[j] == gc,
    ensures
        forall|j: int|
            0 <= j < nc.len() ==> 0 <= #[trigger] nc[j]@.source < i + 1
                && !fv[nc[j]@.source].attrs.skip && nc[j]@ == column_of(fv, nc[j]@.source),
        forall|k: int|
            0 <= k < i + 1 && !(#[trigger] fv[k].attrs.skip) ==> exists|j: int|
                0 <= j < nc.len() && #[trigger] nc[j]@.source == k,
{
    assert forall|j: int| 0 <= j < nc.len() implies 0 <= #[trigger] nc[j]@.source < i + 1
        && !fv[nc[j]@.source].attrs.skip && nc[j]@ == column_of(fv, nc[j]@.source) by {
        if nc[j] != gc {
            let q = choose|q: int| 0 <= q < oc.len() && nc[j] == oc[q];
            assert(nc[j]@ == oc[q]@);
        }
    }
    assert forall|k: int|
        0 <= k < i + 1 && !(#[trigger] fv[k].attrs.skip) implies exists|j: int|
        0 <= j < nc.len() && #[trigger] nc[j]@.source == k by {
        if k == i {
            let j = choose|j: int| 0 <= j < nc.len() && #[trigger] nc[j] == gc;
            assert(nc[j]@.source == k);
        } else {
            let w = choose|w: int| 0 <= w < oc.len() && #[trigger] oc[w]@.source == k;
            let j2 = choose|j2: int| 0 <= j2 < nc.len() && nc[j2] == #[trigger] oc[w];
            assert(nc[j2]@.source == k);
        }
    }
}

/// A finished resolution is well formed once its descriptors' models are read
/// off the built column list.
proof fn lemma_resolve_done(fv: Seq<FieldDefV>, gcols: Seq<ColumnDesc>, cv: Seq<ColumnDescV>)
    requires
        cv.len() == gcols.len(),
        forall|j: int| 0 <= j < cv.len() ==> #[trigger] cv[j] == gcols[j]@,
        forall|j: int|
            0 <= j < gcols.len() ==> 0 <= #[trigger] gcols[j]@.source < fv.len()
                && !fv[gcols[j]@.source].attrs.skip && gcols[j]@ == column_of(
                fv,
                gcols[j]@.source,
            ),
        forall|k: int|
            0 <= k < fv.len() && !(#[trigger] fv[k].attrs.skip) ==> exists|j: int|
                0 <= j < gcols.len() && #[trigger] gcols[j]@.source == k,
        forall|j1: int, j2: int|
            0 <= j1 < j2 < gcols.len() ==> precedes(
                fv,
                #[trigger] gcols[j1]@.source,
                #[trigger] gcols[j2]@.source,
            ),
    ensures
        schema_wf(fv, cv),
{
    assert forall|j: int|
        0 <= j < cv.len() implies 0 <= (#[trigger] cv[j]).source < fv.len()
        && !fv[cv[j].source].attrs.skip && cv[j] == column_of(fv, cv[j].source) by {
        assert(cv[j] == gcols[j]@);
    }
    assert forall|k: int|
        0 <= k < fv.len() && !(#[trigger] fv[k].attrs.skip) implies exists|j: int|
        0 <= j < cv.len() && #[trigger] cv[j].source == k by {
        let w = choose|w: int| 0 <= w < gcols.len() && #[trigger] gcols[w]@.source == k;
        assert(cv[w].source == k);
    }
    assert forall|j1: int, j2: int|
        0 <= j1 < j2 < cv.len() implies precedes(
        fv,
        #[trigger] cv[j1].source,
        #[trigger] cv[j2].source,
    ) by {
        assert(cv[j1] == gcols[j1]@ && cv[j2] == gcols[j2]@);
    }
}

/// Inserts a descriptor into a sorted column list, keeping the `precedes`
/// order.
#[verifier::rlimit(50)]
#[verifier::loop_isolation(false)]
fn insert_sorted(fields: &Vec<FieldDef>, cols: &mut Vec<ColumnDesc>, col: ColumnDesc)
    requires
        0 <= col@.source < fields@.len(),
        forall|j: int|
            0 <= j < old(cols)@.len() ==> 0 <= #[trigger] old(cols)@[j]@.source < fields@.len()
                && old(cols)@[j]@.source != col@.source,
        forall|j1: int, j2: int|
            0 <= j1 < j2 < old(cols)@.len() ==> precedes(
                fields_views(fields@),
                #[trigger] old(cols)@[j1]@.source,
                #[trigger] old(cols)@[j2]@.source,
            ),
    ensures
        final(cols)@.len() == old(cols)@.len() + 1,
        forall|j: int|
            0 <= j < final(cols)@.len() ==> #[trigger] final(cols)@[j] == col || exists|q: int|
                0 <= q < old(cols)@.len() && final(cols)@[j] == old(cols)@[q],
        forall|q: int|
            0 <= q < old(cols)@.len() ==> exists|j: int|
                0 <= j < final(cols)@.len() && final(cols)@[j] == #[trigger] old(cols)@[q],
        exists|j: int| 0 <= j < final(cols)@.len() && #[trigger] final(cols)@[j] == col,
        forall|j1: int, j2: int|
            0 <= j1 < j2 < final(cols)@.len() ==> precedes(
                fields_views(fields@),
                #[trigger] final(cols)@[j1]@.source,
                #[trigger] final(cols)@[j2]@.source,
            ),
{
    let ghost fv = fields_views(fields@);
    let ghost s = cols@;
    let ghost gcol = col;
    let p = find_insert_pos(fields, cols, col.source);
    proof {
        assert forall|q: int| 0 <= q < p as int implies precedes(
            fv,
            #[trigger] s[q]@.source,
            gcol@.source,
        ) by {
            lemma_precedes_total(fv, gcol@.source, s[q]@.source);
        }
    }
    cols.insert(p, col);
    proof {
        let pi = p as int;
        assert(cols@ == s.insert(pi, gcol));
        assert forall|j: int| 0 <= j < cols@.len() implies #[trigger] cols@[j] == (
        if j < pi {
            s[j]
        } else if j == pi {
            gcol
        } else {
            s[j - 1]
        }) by {
            if j < pi {
                assert(s.insert(pi, gcol)[j] == s[j]);
            } else if j == pi {
                assert(s.insert(pi, gcol)[pi] == gcol);
            } else {
                assert(s.insert(pi, gcol)[j] == s[j - 1]);
            }
        }
        assert forall|q: int| 0 <= q < s.len() implies exists|j: int|
            0 <= j < cols@.len() && cols@[j] == #[trigger] s[q] by {
            if q < pi {
                assert(cols@[q] == s[q]);
            } else {
                assert(cols@[q + 1] == s[q]);
            }
        }
        assert(cols@[pi] == gcol);
        assert forall|j1: int, j2: int| 0 <= j1 < j2 < cols@.len() implies precedes(
            fv,
            #[trigger] cols@[j1]@.source,
            #[trigger] cols@[j2]@.source,
        ) by {
            if j1 == pi {
                if j2 - 1 > pi {
                    lemma_precedes_trans(fv, gcol@.source, s[pi]@.source, s[j2 - 1]@.source);
                }
            } else if j1 < pi && j2 == pi {
                assert(precedes(fv, s[j1]@.source, gcol@.source));
            } else if j1 < pi && j2 > pi {
                assert(precedes(fv, s[j1]@.source, s[j2 - 1]@.source));
            }
        }
    }
}

/// The position where a column reading field `src` belongs in the sorted
/// column list: the first descriptor that `src` precedes, or the end.
#[verifier::loop_isolation(false)]
fn find_insert_pos(fields: &Vec<FieldDef>, cols: &Vec<ColumnDesc>, src: usize) -> (p: usize)
    requires
        src < fields@.len(),
        forall|j: int| 0 <= j < cols@.len() ==> 0 <= #[trigger] cols@[j]@.source < fields@.len(),
    ensures
        0 <= p <= cols@.len(),
        forall|q: int|
            0 <= q < p as int ==> !precedes(
                fields_views(fields@),
                src as int,
                #[trigger] cols@[q]@.source,
            ),
        p < cols@.len() ==> precedes(
            fields_views(fields@),
            src as int,
            cols@[p as int]@.source,
        ),
{
    let n = cols.len();
    let mut p: usize = 0;
    while p < n
        invariant
            0 <= p <= n,
            forall|q: int|
                0 <= q < p as int ==> !precedes(
                    fields_views(fields@),
                    src as int,
                    #[trigger] cols@[q]@.source,
                ),
        decreases n - p,
    {
        proof {
            assert(cols@[p as int]@.source < fields@.len());
            assert(cols@[p as int].source < fields@.len());
        }
        if precedes_exec(fields, src, cols[p].source) {
            return p;
        }
        p = p + 1;
    }
    p
}

/// Whether field `i` sorts before field `j` under the schema order.
fn precedes_exec(fields: &Vec<FieldDef>, i: usize, j: usize) -> (r: bool)
    requires
        i < fields@.len(),
        j < fields@.len(),
    ensures
        r == precedes(fields_views(fields@), i as int, j as int),
{
    match (fields[i].attrs.order, fields[j].attrs.order) {
        (Some(a), Some(b)) => a < b || (a == b && i < j),
        (Some(_), None) => true,
        (None, Some(_)) => false,
        (None, None) => i < j,
    }
}

} // verus!
