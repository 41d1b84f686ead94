//! Registration and rendering: contexts that carry a name prefix and base
//! attributes down into nested components, groups that declare concrete
//! metrics, and the registry that owns the sorted list and renders it.

use crate::helpers::RegisterableMetric;
use crate::metric::clone_attributes;
use crate::metric::MetricType;
use crate::metric::MetricView;
use crate::metric::RegisteredMetric;
use crate::primitives::IntCounter;
use crate::primitives::IntGauge;
use crate::render::exposition;
use crate::render::render_metrics;
use crate::sorting::is_sorted;
use crate::sorting::lemma_sort_permutes;
use crate::sorting::lemma_sort_sorted;
use crate::sorting::sort_by_key;
use crate::sorting::sort_metrics;
use std::sync::atomic::AtomicU64;
use std::sync::Arc;
use vstd::prelude::*;
use vstd::seq_lib::lemma_multiset_commutative;
use vstd::string::StringExecFns;

verus! {

/// `name` behind the prefix, joined with `_`; `name` alone without a prefix.
pub open spec fn qualified(prefix: Option<Seq<char>>, name: Seq<char>) -> Seq<char> {
    match prefix {
        Some(p) => p + "_"@ + name,
        None => name,
    }
}

/// The prefix of a group opened under `prefix` with an optional extra segment.
pub open spec fn narrowed(prefix: Option<Seq<char>>, segment: Option<Seq<char>>) -> Option<
    Seq<char>,
> {
    match segment {
        Some(s) => Some(qualified(prefix, s)),
        None => prefix,
    }
}

/// `pending` with every metric carrying `attributes` and nothing else.
pub open spec fn stamped(
    pending: Seq<MetricView>,
    attributes: Seq<(Seq<char>, Seq<char>)>,
) -> Seq<MetricView> {
    pending.map_values(|m: MetricView| MetricView { attributes: attributes, ..m })
}

/// What a group holds.
pub struct GroupView {
    /// Stands before the name of every metric declared from now on.
    pub prefix: Option<Seq<char>>,
    /// Inherited attributes first, then the group's own, in insertion order.
    pub attributes: Seq<(Seq<char>, Seq<char>)>,
    /// Declared and not yet flushed.
    pub pending: Seq<MetricView>,
    /// The registry's list as it stands.
    pub list: Seq<MetricView>,
}

/// A buffer of metric declarations that `flush` commits to the registry's
/// list, each stamped with the group's attributes.
pub struct RegisterHelper<'a> {
    name_prefix: Option<String>,
    metrics: &'a mut Vec<RegisteredMetric>,
    attributes: Vec<(String, String)>,
    registered: Vec<RegisteredMetric>,
}

impl<'a> View for RegisterHelper<'a> {
    type V = GroupView;

    closed spec fn view(&self) -> GroupView {
        GroupView {
            prefix: self.name_prefix.deep_view(),
            attributes: self.attributes.deep_view(),
            pending: self.registered.deep_view(),
            list: self.metrics.deep_view(),
        }
    }
}

impl<'a> RegisterHelper<'a> {
    /// The borrow of the registry's list that `flush` writes through.
    pub closed spec fn sink(&self) -> &'a mut Vec<RegisteredMetric> {
        self.metrics
    }

    /// Once the group is no longer used, the registry's list is what the
    /// group last saw: a group that is dropped without `flush` registers
    /// nothing.
    pub proof fn lemma_settled(self)
        requires
            has_resolved(self),
        ensures
            final(self.sink()).deep_view() == self@.list,
    {
    }

    /// Adds an attribute to every metric of this group, those declared
    /// before the call as well as those declared after it.
    pub fn attr(&mut self, key: &str, value: &str) -> (group: &mut Self)
        ensures
            *final(self) == *final(group),
            group@ == (GroupView {
                attributes: old(self)@.attributes.push((key@, value@)),
                ..old(self)@
            }),
            *final(group.sink()) == *final(old(self).sink()),
    {
        self.attributes.push((key.to_owned(), value.to_owned()));
        assert(self.attributes.deep_view() =~= old(self).attributes.deep_view().push((key@, value@)));
        self
    }

    /// Declares a counter under `name`, behind the group's prefix.
    pub fn count(&mut self, name: &str, count: &IntCounter) -> (group: &mut Self)
        ensures
            *final(self) == *final(group),
            group@ == (GroupView {
                pending: old(self)@.pending.push(
                    MetricView {
                        kind: MetricType::IntCounter,
                        name: qualified(old(self)@.prefix, name@),
                        cell: count.cell(),
                        attributes: Seq::empty(),
                    },
                ),
                ..old(self)@
            }),
            *final(group.sink()) == *final(old(self).sink()),
    {
        self.metric(name, &count.handle(), MetricType::IntCounter)
    }

    /// Declares a gauge under `name`, behind the group's prefix.
    pub fn gauge(&mut self, name: &str, gauge: &IntGauge) -> (group: &mut Self)
        ensures
            *final(self) == *final(group),
            group@ == (GroupView {
                pending: old(self)@.pending.push(
                    MetricView {
                        kind: MetricType::IntGauge,
                        name: qualified(old(self)@.prefix, name@),
                        cell: gauge.cell(),
                        attributes: Seq::empty(),
                    },
                ),
                ..old(self)@
            }),
            *final(group.sink()) == *final(old(self).sink()),
    {
        self.metric(name, &gauge.handle(), MetricType::IntGauge)
    }

    /// Declares a metric of the given kind on `value` under `name`, behind
    /// the group's prefix. The declaration carries no attributes until the
    /// group is flushed.
    pub fn metric(&mut self, name: &str, value: &Arc<AtomicU64>, metric_type: MetricType) -> (group:
        &mut Self)
        ensures
            *final(self) == *final(group),
            group@ == (GroupView {
                pending: old(self)@.pending.push(
                    MetricView {
                        kind: metric_type,
                        name: qualified(old(self)@.prefix, name@),
                        cell: *value,
                        attributes: Seq::empty(),
                    },
                ),
                ..old(self)@
            }),
            *final(group.sink()) == *final(old(self).sink()),
    {
        let full_name = match &self.name_prefix {
            Some(prefix) => {
                let mut full = prefix.clone();
                full.append("_");
                full.append(name);
                full
            },
            None => name.to_owned(),
        };
        let declared = RegisteredMetric::new(metric_type, full_name, value.clone());
        self.registered.push(declared);
        assert(self.registered.deep_view() =~= old(self).registered.deep_view().push(declared@));
        self
    }

    /// Commits the group and ends it: every pending declaration gets the
    /// group's attributes and joins the registry's list, which is then sorted
    /// by (name, kind).
    pub fn flush(self)
        ensures
            final(self.sink()).deep_view() == sort_by_key(
                self@.list + stamped(self@.pending, self@.attributes),
            ),
    {
        let ghost start = self;
        let mut group = self;
        let ghost pending = group.registered.deep_view();
        let ghost attributes = group.attributes.deep_view();
        let ghost list = group.metrics.deep_view();
        let ghost done: int = 0;
        assert(stamped(pending, attributes).subrange(0, 0) =~= Seq::empty());
        assert(list + Seq::<MetricView>::empty() =~= list);
        assert(pending.subrange(0, pending.len() as int) =~= pending);
        while group.registered.len() > 0
            invariant
                0 <= done <= pending.len(),
                attributes == group.attributes.deep_view(),
                group.registered.deep_view() == pending.subrange(done, pending.len() as int),
                group.metrics.deep_view() == list + stamped(pending, attributes).subrange(0, done),
                *final(group.metrics) == *final(start.metrics),
            decreases group.registered.len(),
        {
            let ghost rest = group.registered.deep_view();
            let ghost committed = group.metrics.deep_view();
            let mut metric = group.registered.remove(0);
            assert(metric@ == rest[0]);
            assert(rest.len() == group.registered.len() + 1);
            assert(pending.subrange(done, pending.len() as int)[0] == pending[done]);
            metric.stamp(clone_attributes(&group.attributes));
            group.metrics.push(metric);
            proof {
                assert(group.registered.deep_view() =~= rest.remove(0));
                assert(rest.remove(0) =~= pending.subrange(done + 1, pending.len() as int));
                assert(group.metrics.deep_view() =~= committed.push(metric@));
                assert(metric@ == stamped(pending, attributes)[done]);
                assert(committed.push(metric@) =~= list + stamped(pending, attributes).subrange(
                    0,
                    done + 1,
                ));
                done = done + 1;
            }
        }
        assert(done == pending.len());
        assert(stamped(pending, attributes).subrange(0, done) =~= stamped(pending, attributes));
        sort_metrics(group.metrics);
    }
}

/// What a registration context holds.
pub struct ActionView {
    /// Stands before the name of every metric declared under the context.
    pub prefix: Option<Seq<char>>,
    /// Carried by every metric declared under the context.
    pub attributes: Seq<(Seq<char>, Seq<char>)>,
    /// The registry's list as it stands.
    pub list: Seq<MetricView>,
}

/// The context handed to a registration routine: a name prefix and base
/// attributes that the groups opened from it inherit.
pub struct RegisterAction<'a> {
    metrics: &'a mut Vec<RegisteredMetric>,
    name_prefix: Option<String>,
    base_attributes: Vec<(String, String)>,
}

impl<'a> View for RegisterAction<'a> {
    type V = ActionView;

    closed spec fn view(&self) -> ActionView {
        ActionView {
            prefix: self.name_prefix.deep_view(),
            attributes: self.base_attributes.deep_view(),
            list: self.metrics.deep_view(),
        }
    }
}

impl<'a> RegisterAction<'a> {
    /// The borrow of the registry's list that the groups write through.
    pub closed spec fn sink(&self) -> &'a mut Vec<RegisteredMetric> {
        self.metrics
    }

    /// Once the context is no longer used, the registry's list is what the
    /// context last saw.
    pub proof fn lemma_settled(self)
        requires
            has_resolved(self),
        ensures
            final(self.sink()).deep_view() == self@.list,
    {
    }

    /// A context without a prefix over `metrics`, with `base_attributes`.
    fn new(
        metrics: &'a mut Vec<RegisteredMetric>,
        base_attributes: Vec<(String, String)>,
    ) -> (action: Self)
        ensures
            action@ == (ActionView {
                prefix: None,
                attributes: base_attributes.deep_view(),
                list: old(metrics).deep_view(),
            }),
            *final(action.sink()) == *final(metrics),
    {
        RegisterAction { metrics, name_prefix: None, base_attributes }
    }

    /// A context of the same prefix and attributes for a nested component.
    /// What the component does to its context does not reach this one; what
    /// it registers does.
    pub fn child(&mut self) -> (nested: RegisterAction<'_>)
        ensures
            nested@ == old(self)@,
            final(self)@ == (ActionView { list: final(nested.sink()).deep_view(), ..old(self)@ }),
            *final(final(self).sink()) == *final(old(self).sink()),
    {
        RegisterAction {
            metrics: self.metrics,
            name_prefix: self.name_prefix.clone(),
            base_attributes: clone_attributes(&self.base_attributes),
        }
    }

    /// Narrows the context by a prefix segment: the segment is joined to the
    /// prefix the context has, or becomes the prefix if it has none.
    pub fn name_prefix(&mut self, prefix: &str) -> (action: &mut Self)
        ensures
            *final(self) == *final(action),
            action@ == (ActionView {
                prefix: Some(qualified(old(self)@.prefix, prefix@)),
                ..old(self)@
            }),
            *final(action.sink()) == *final(old(self).sink()),
    {
        let joined = match &self.name_prefix {
            Some(current) => {
                let mut joined = current.clone();
                joined.append("_");
                joined.append(prefix);
                joined
            },
            None => prefix.to_owned(),
        };
        self.name_prefix = Some(joined);
        self
    }

    /// Adds an attribute that every metric declared under this context from
    /// now on carries.
    pub fn base_attr(&mut self, key: &str, value: &str) -> (action: &mut Self)
        ensures
            *final(self) == *final(action),
            action@ == (ActionView {
                attributes: old(self)@.attributes.push((key@, value@)),
                ..old(self)@
            }),
            *final(action.sink()) == *final(old(self).sink()),
    {
        self.base_attributes.push((key.to_owned(), value.to_owned()));
        assert(self.base_attributes.deep_view() =~= old(self).base_attributes.deep_view().push(
            (key@, value@),
        ));
        self
    }

    /// Opens a group without an extra prefix segment and declares a counter
    /// in it.
    pub fn count(&mut self, name: &str, count: &IntCounter) -> (group: RegisterHelper<'_>)
        ensures
            group@ == (GroupView {
                prefix: old(self)@.prefix,
                attributes: old(self)@.attributes,
                pending: seq![
                    MetricView {
                        kind: MetricType::IntCounter,
                        name: qualified(old(self)@.prefix, name@),
                        cell: count.cell(),
                        attributes: Seq::empty(),
                    },
                ],
                list: old(self)@.list,
            }),
            final(self)@ == (ActionView { list: final(group.sink()).deep_view(), ..old(self)@ }),
            *final(final(self).sink()) == *final(old(self).sink()),
    {
        self.metric(name, &count.handle(), MetricType::IntCounter)
    }

    /// Opens a group without an extra prefix segment and declares a gauge in
    /// it.
    pub fn gauge(&mut self, name: &str, gauge: &IntGauge) -> (group: RegisterHelper<'_>)
        ensures
            group@ == (GroupView {
                prefix: old(self)@.prefix,
                attributes: old(self)@.attributes,
                pending: seq![
                    MetricView {
                        kind: MetricType::IntGauge,
                        name: qualified(old(self)@.prefix, name@),
                        cell: gauge.cell(),
                        attributes: Seq::empty(),
                    },
                ],
                list: old(self)@.list,
            }),
            final(self)@ == (ActionView { list: final(group.sink()).deep_view(), ..old(self)@ }),
            *final(final(self).sink()) == *final(old(self).sink()),
    {
        self.metric(name, &gauge.handle(), MetricType::IntGauge)
    }

    /// Opens a group without an extra prefix segment and declares one metric
    /// in it.
    pub fn metric(&mut self, name: &str, value: &Arc<AtomicU64>, metric_type: MetricType) -> (group:
        RegisterHelper<'_>)
        ensures
            group@ == (GroupView {
                prefix: old(self)@.prefix,
                attributes: old(self)@.attributes,
                pending: seq![
                    MetricView {
                        kind: metric_type,
                        name: qualified(old(self)@.prefix, name@),
                        cell: *value,
                        attributes: Seq::empty(),
                    },
                ],
                list: old(self)@.list,
            }),
            final(self)@ == (ActionView { list: final(group.sink()).deep_view(), ..old(self)@ }),
            *final(final(self).sink()) == *final(old(self).sink()),
    {
        let mut helper = self.empty();
        helper.metric(name, value, metric_type);
        assert(helper@.pending =~= seq![
            MetricView {
                kind: metric_type,
                name: qualified(old(self)@.prefix, name@),
                cell: *value,
                attributes: Seq::empty(),
            },
        ]);
        helper
    }

    /// Opens a group whose metrics stand behind the context's prefix and
    /// `prefix`, joined with `_`.
    pub fn group(&mut self, prefix: &str) -> (group: RegisterHelper<'_>)
        ensures
            group@ == (GroupView {
                prefix: Some(qualified(old(self)@.prefix, prefix@)),
                attributes: old(self)@.attributes,
                pending: Seq::empty(),
                list: old(self)@.list,
            }),
            final(self)@ == (ActionView { list: final(group.sink()).deep_view(), ..old(self)@ }),
            *final(final(self).sink()) == *final(old(self).sink()),
    {
        self.start(Some(prefix))
    }

    /// Opens a group whose metrics stand behind the context's prefix alone.
    pub fn empty(&mut self) -> (group: RegisterHelper<'_>)
        ensures
            group@ == (GroupView {
                prefix: old(self)@.prefix,
                attributes: old(self)@.attributes,
                pending: Seq::empty(),
                list: old(self)@.list,
            }),
            final(self)@ == (ActionView { list: final(group.sink()).deep_view(), ..old(self)@ }),
            *final(final(self).sink()) == *final(old(self).sink()),
    {
        self.start(None)
    }

    /// Opens a group under the context's prefix, narrowed by `prefix` if one
    /// is given, with the context's attributes and nothing pending.
    pub fn start(&mut self, prefix: Option<&str>) -> (group: RegisterHelper<'_>)
        ensures
            group@ == (GroupView {
                prefix: narrowed(old(self)@.prefix, prefix.deep_view()),
                attributes: old(self)@.attributes,
                pending: Seq::empty(),
                list: old(self)@.list,
            }),
            final(self)@ == (ActionView { list: final(group.sink()).deep_view(), ..old(self)@ }),
            *final(final(self).sink()) == *final(old(self).sink()),
    {
        let attributes = clone_attributes(&self.base_attributes);
        let name_prefix = match (&self.name_prefix, prefix) {
            (Some(current), None) => Some(current.clone()),
            (None, Some(segment)) => Some(segment.to_owned()),
            (Some(current), Some(segment)) => {
                let mut joined = current.clone();
                joined.append("_");
                joined.append(segment);
                Some(joined)
            },
            (None, None) => None,
        };
        let registered: Vec<RegisteredMetric> = Vec::new();
        assert(registered.deep_view() =~= Seq::empty());
        RegisterHelper { metrics: self.metrics, name_prefix, attributes, registered }
    }
}

/// Anything the registry can keep alive and share between threads.
trait Retained: Send + Sync {

}

impl<T: Send + Sync> Retained for T {

}

/// A share in the ownership of a registered metrics struct, its type erased.
struct Holder {
    owner: Arc<dyn Retained>,
}

/// Wraps `Arc::clone`: the handle returned shares ownership of `owner`, so
/// `owner` lives at least as long as the handle. Nothing is claimed of it.
#[verifier::external_body]
fn retain<T: Send + Sync + 'static>(owner: &Arc<T>) -> Holder {
    Holder { owner: Arc::<T>::clone(owner) }
}

/// Wraps `pkg_details::try_get`: the name and version of the running
/// program if the program has announced them, else nothing. The answer
/// depends on what the process did before, so nothing is claimed of it.
#[verifier::external_body]
fn package_details() -> Option<(&'static str, &'static str)> {
    pkg_details::try_get().map(|details| (details.pkg_name, details.pkg_version))
}

/// The base attributes that stand for the running program: `program` and
/// `pkg_version` where the details are known, none where they are not.
pub open spec fn package_labels(details: Option<(Seq<char>, Seq<char>)>) -> Seq<
    (Seq<char>, Seq<char>),
> {
    match details {
        Some((name, version)) => seq![("program"@, name), ("pkg_version"@, version)],
        None => Seq::empty(),
    }
}

/// The base attributes for a program with the given name and version.
pub fn package_attributes(details: Option<(&str, &str)>) -> (attributes: Vec<(String, String)>)
    ensures
        attributes.deep_view() == package_labels(details.deep_view()),
{
    let mut attributes: Vec<(String, String)> = Vec::new();
    match details {
        Some((name, version)) => {
            attributes.push(("program".to_owned(), name.to_owned()));
            attributes.push(("pkg_version".to_owned(), version.to_owned()));
        },
        None => {},
    }
    assert(attributes.deep_view() =~= package_labels(details.deep_view()));
    attributes
}

/// What a registration routine may do to the list: it keeps a sorted list
/// sorted, and takes nothing out of it.
pub open spec fn extends(before: Seq<MetricView>, after: Seq<MetricView>) -> bool {
    &&& is_sorted(before) ==> is_sorted(after)
    &&& before.to_multiset().subset_of(after.to_multiset())
}

/// What `flush` does to the list is within what a registration routine may
/// do.
pub proof fn lemma_flush_extends(list: Seq<MetricView>, added: Seq<MetricView>)
    ensures
        is_sorted(sort_by_key(list + added)),
        extends(list, sort_by_key(list + added)),
{
    lemma_sort_sorted(list + added);
    lemma_sort_permutes(list + added);
    lemma_multiset_commutative(list, added);
}

/// The top-level store of registered metrics.
pub struct PromMetricRegistry {
    metric_holders: Vec<Holder>,
    metrics: Vec<RegisteredMetric>,
    base_attributes: Vec<(String, String)>,
}

impl View for PromMetricRegistry {
    type V = Seq<MetricView>;

    /// The registered metrics in render order.
    closed spec fn view(&self) -> Seq<MetricView> {
        self.metrics.deep_view()
    }
}

impl PromMetricRegistry {
    /// The attributes every registered metric starts with.
    pub closed spec fn base_attributes(&self) -> Seq<(Seq<char>, Seq<char>)> {
        self.base_attributes.deep_view()
    }

    /// How many owners the registry keeps alive.
    pub closed spec fn retained(&self) -> nat {
        self.metric_holders@.len()
    }

    /// The list is sorted by (name, kind).
    pub open spec fn wf(&self) -> bool {
        is_sorted(self@)
    }

    /// An empty registry whose base attributes name the running program, if
    /// the program has announced its name and version.
    pub fn new() -> (registry: Self)
        ensures
            registry@ == Seq::<MetricView>::empty(),
            registry.retained() == 0,
            registry.wf(),
            exists|details: Option<(Seq<char>, Seq<char>)>|
                registry.base_attributes() == package_labels(details),
    {
        let details = package_details();
        let registry = Self::with_base_attributes(package_attributes(details));
        assert(registry.base_attributes() == package_labels(details.deep_view()));
        registry
    }

    /// An empty registry with the given base attributes.
    pub fn with_base_attributes(base_attributes: Vec<(String, String)>) -> (registry: Self)
        ensures
            registry@ == Seq::<MetricView>::empty(),
            registry.retained() == 0,
            registry.wf(),
            registry.base_attributes() == base_attributes.deep_view(),
    {
        let registry = PromMetricRegistry {
            metric_holders: Vec::new(),
            metrics: Vec::new(),
            base_attributes,
        };
        assert(registry.metrics.deep_view() =~= Seq::empty());
        registry
    }

    /// Adds a base attribute: every metric registered from now on carries
    /// it, before the attributes of its context and of its group.
    pub fn base_attr(&mut self, key: &str, value: &str)
        ensures
            final(self)@ == old(self)@,
            final(self).retained() == old(self).retained(),
            final(self).base_attributes() == old(self).base_attributes().push((key@, value@)),
    {
        self.base_attributes.push((key.to_owned(), value.to_owned()));
        assert(self.base_attributes.deep_view() =~= old(self).base_attributes.deep_view().push(
            (key@, value@),
        ));
    }

    /// Runs the aggregate's own registration routine on a fresh context and
    /// keeps the aggregate alive from now on.
    pub fn register<M: RegisterableMetric + Send + Sync + 'static>(&mut self, metrics: &Arc<M>)
        ensures
            exists|action: &mut RegisterAction<'_>|
                action@.prefix.is_none() && action@.attributes == old(self).base_attributes()
                    && action@.list == old(self)@ && #[trigger] call_ensures(
                    M::register,
                    (&**metrics, action),
                    (),
                ) && final(self)@ == final(action)@.list,
            extends(old(self)@, final(self)@),
            final(self).base_attributes() == old(self).base_attributes(),
            final(self).retained() == old(self).retained() + 1,
    {
        self.metric_holders.push(retain(metrics));
        let mut action = RegisterAction::new(
            &mut self.metrics,
            clone_attributes(&self.base_attributes),
        );
        metrics.register(&mut action);
    }

    /// Runs `register` on the aggregate and a fresh context, and keeps the
    /// aggregate alive from now on. The context starts without a prefix,
    /// with the registry's base attributes, over the registry's list.
    pub fn register_fn<T: Send + Sync + 'static, F: FnOnce(&T, &mut RegisterAction<'_>)>(
        &mut self,
        metrics: &Arc<T>,
        register: F,
    )
        requires
            forall|action: &mut RegisterAction<'_>|
                action@.prefix.is_none() && action@.attributes == old(self).base_attributes()
                    && action@.list == old(self)@ ==> call_requires(
                    register,
                    (&**metrics, action),
                ),
            forall|action: &mut RegisterAction<'_>| #[trigger]
                call_ensures(register, (&**metrics, action), ()) ==> *final(final(action).sink())
                    == *final(action.sink()) && extends(action@.list, final(action)@.list),
        ensures
            exists|action: &mut RegisterAction<'_>|
                action@.prefix.is_none() && action@.attributes == old(self).base_attributes()
                    && action@.list == old(self)@ && #[trigger] call_ensures(
                    register,
                    (&**metrics, action),
                    (),
                ) && final(self)@ == final(action)@.list,
            extends(old(self)@, final(self)@),
            final(self).base_attributes() == old(self).base_attributes(),
            final(self).retained() == old(self).retained() + 1,
    {
        self.metric_holders.push(retain(metrics));
        let mut action = RegisterAction::new(
            &mut self.metrics,
            clone_attributes(&self.base_attributes),
        );
        register(&**metrics, &mut action);
    }

    /// The number of registered metrics.
    pub fn len(&self) -> (n: usize)
        ensures
            n == self@.len(),
    {
        self.metrics.len()
    }

    /// The current value of every registered metric, in render order. The
    /// values are read one after the other, each with relaxed ordering.
    pub fn snapshot(&self) -> (values: Vec<u64>)
        ensures
            values@.len() == self@.len(),
    {
        let mut values: Vec<u64> = Vec::new();
        let mut i: usize = 0;
        while i < self.metrics.len()
            invariant
                i <= self.metrics.len(),
                values@.len() == i,
            decreases self.metrics.len() - i,
        {
            values.push(self.metrics[i].load());
            i += 1;
        }
        values
    }

    /// The exposition of the registered metrics with `values[i]` as the
    /// value of the metric at `i`.
    pub fn render_with(&self, values: &Vec<u64>) -> (text: String)
        requires
            values@.len() == self@.len(),
        ensures
            text@ == exposition(self@, values@),
    {
        render_metrics(&self.metrics, values)
    }

    /// The exposition of the registered metrics with their current values.
    pub fn render(&self) -> (text: String)
        ensures
            exists|values: Seq<u64>|
                values.len() == self@.len() && text@ == exposition(self@, values),
            self@.len() == 0 ==> text@ == Seq::<char>::empty(),
    {
        let values = self.snapshot();
        let text = self.render_with(&values);
        assert(values@.len() == self@.len() && text@ == exposition(self@, values@));
        text
    }
}

impl Default for PromMetricRegistry {
    fn default() -> (registry: Self)
        ensures
            registry@ == Seq::<MetricView>::empty(),
            registry.retained() == 0,
            registry.wf(),
            exists|details: Option<(Seq<char>, Seq<char>)>|
                registry.base_attributes() == package_labels(details),
    {
        PromMetricRegistry::new()
    }
}


} // verus!
