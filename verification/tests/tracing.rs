use alloc_groups::{
    acquire_allocation_group_id, get_grouped_tracing_allocator, init_allocation_tracing, report,
    AllocLayout, AllocationGroupId, AllocationHeader, AllocationPlan, GroupRegistry, GroupUsage,
    GroupedTraceableAllocator, LocalProducerTracer, RawHeader, Release, Reporter, ReporterAction,
    ThreadContext, Tracer, TracingError, WrappedLayout, CAPACITY, REPORT_INTERVAL_MS,
};

fn group(raw: usize) -> AllocationGroupId {
    AllocationGroupId::from_raw(raw).unwrap()
}

fn layout(size: usize, align: usize) -> AllocLayout {
    AllocLayout::from_size_align(size, align).unwrap()
}

fn nonzero(tracer: &LocalProducerTracer) -> Vec<(usize, i64)> {
    report(&tracer.snapshot())
        .iter()
        .map(|usage| (usage.group_id, usage.current_memory_allocated_in_bytes))
        .collect()
}

#[test]
fn new_table_holds_a_zero_for_every_group() {
    let tracer = LocalProducerTracer::new();
    let counters = tracer.snapshot();
    assert_eq!(counters.len(), CAPACITY);
    assert!(counters.iter().all(|&bytes| bytes == 0));
    assert_eq!(tracer.counter(group(0)), 0);
    assert_eq!(tracer.counter(group(1023)), 0);
}

#[test]
fn allocation_adds_and_release_subtracts() {
    let mut tracer = LocalProducerTracer::new();
    tracer.trace_allocation(4096, group(3));
    assert_eq!(tracer.counter(group(3)), 4096);
    tracer.trace_allocation(100, group(3));
    assert_eq!(tracer.counter(group(3)), 4196);
    tracer.trace_deallocation(4096, group(3));
    assert_eq!(tracer.counter(group(3)), 100);
    tracer.trace_deallocation(100, group(3));
    assert_eq!(tracer.counter(group(3)), 0);
}

#[test]
fn ingest_scenario() {
    let mut registry = GroupRegistry::new();
    let ingest = acquire_allocation_group_id(
        &mut registry,
        vec![("component_id".to_string(), "ingest".to_string())],
    )
    .unwrap();
    let mut ctx = ThreadContext::new();
    let mut tracer = LocalProducerTracer::new();
    let scope = ingest.enter(&mut ctx);
    tracer.trace_allocation(4096, ctx.current_group());
    assert_eq!(tracer.counter(ingest.id()), 4096);
    tracer.trace_deallocation(4096, ingest.id());
    assert_eq!(tracer.counter(ingest.id()), 0);
    scope.exit(&mut ctx);
    assert_eq!(ctx.current_group(), AllocationGroupId::root());
    assert_eq!(ctx.current_group().as_usize(), 0);
}

#[test]
fn ingest_scenario_through_the_allocator() {
    let mut registry = GroupRegistry::new();
    let ingest = acquire_allocation_group_id(
        &mut registry,
        vec![("component_id".to_string(), "ingest".to_string())],
    )
    .unwrap();
    let mut allocator = get_grouped_tracing_allocator(());
    let _reporter = init_allocation_tracing(&mut allocator);
    let mut ctx = ThreadContext::new();
    let scope = ingest.enter(&mut ctx);

    let request = layout(4080, 8);
    let plan = allocator.begin_allocation(&mut ctx, request);
    let header = AllocationHeader { group_id: ingest.id(), wrapped_size: 4096 };
    assert_eq!(
        plan,
        AllocationPlan::Traced {
            wrapped: WrappedLayout { size: 4096, align: 8, offset: 16 },
            header,
        }
    );
    allocator.finish_allocation(&mut ctx, plan, true);
    assert_eq!(allocator.tracer().counter(ingest.id()), 4096);
    assert_eq!(nonzero(allocator.tracer()), vec![(1, 4096)]);

    let release = allocator.deallocate(&mut ctx, Some(header.encode()), request);
    assert_eq!(
        release,
        Ok(Release::Wrapped { wrapped: WrappedLayout { size: 4096, align: 8, offset: 16 } })
    );
    assert_eq!(allocator.tracer().counter(ingest.id()), 0);
    assert_eq!(nonzero(allocator.tracer()), vec![]);

    scope.exit(&mut ctx);
    assert!(ctx.current_group().is_root());
}

#[test]
fn one_scope_accounts_to_one_group_only() {
    let mut registry = GroupRegistry::new();
    let _other = registry.register().unwrap();
    let token = registry.register().unwrap();
    let mut allocator = get_grouped_tracing_allocator(());
    let _reporter = init_allocation_tracing(&mut allocator);
    let mut ctx = ThreadContext::new();
    let scope = token.enter(&mut ctx);

    let sizes: [usize; 5] = [1, 24, 100, 4096, 65536];
    let mut headers = Vec::new();
    let mut allocated: i64 = 0;
    for &size in &sizes {
        let request = layout(size, 8);
        let plan = allocator.begin_allocation(&mut ctx, request);
        match plan {
            AllocationPlan::Traced { wrapped, header } => {
                assert_eq!(header.group_id, token.id());
                assert_eq!(header.wrapped_size, wrapped.size);
                allocated += wrapped.size as i64;
                headers.push((header, request));
            }
            _ => panic!("the request was not tracked"),
        }
        allocator.finish_allocation(&mut ctx, plan, true);
    }
    assert_eq!(allocated, 24 + 40 + 120 + 4112 + 65552);
    assert_eq!(nonzero(allocator.tracer()), vec![(2, allocated)]);

    let mut released: i64 = 0;
    for &(header, request) in headers.iter().take(3) {
        released += header.wrapped_size as i64;
        assert!(allocator.deallocate(&mut ctx, Some(header.encode()), request).is_ok());
    }
    assert_eq!(released, 24 + 40 + 120);
    assert_eq!(allocator.tracer().counter(token.id()), allocated - released);
    assert_eq!(nonzero(allocator.tracer()), vec![(2, 4112 + 65552)]);
    scope.exit(&mut ctx);
}

#[test]
fn totals_do_not_depend_on_the_order_of_events() {
    let events: Vec<(bool, usize, usize)> = vec![
        (true, 100, 1),
        (true, 200, 2),
        (false, 100, 1),
        (true, 50, 1),
        (true, 7, 3),
        (false, 200, 2),
        (true, 4096, 2),
        (false, 7, 3),
    ];
    let mut interleaved = events.clone();
    interleaved.reverse();
    interleaved.swap(1, 5);
    interleaved.swap(0, 3);

    let mut sequential = LocalProducerTracer::new();
    for &(alloc, size, id) in &events {
        if alloc {
            sequential.trace_allocation(size, group(id));
        } else {
            sequential.trace_deallocation(size, group(id));
        }
    }
    let mut concurrent = LocalProducerTracer::new();
    for &(alloc, size, id) in &interleaved {
        if alloc {
            concurrent.trace_allocation(size, group(id));
        } else {
            concurrent.trace_deallocation(size, group(id));
        }
    }
    assert_eq!(sequential.snapshot(), concurrent.snapshot());
    assert_eq!(nonzero(&sequential), vec![(1, 50), (2, 4096)]);
}

#[test]
fn release_before_allocation_makes_the_counter_negative() {
    let mut tracer = LocalProducerTracer::new();
    tracer.trace_deallocation(64, group(9));
    assert_eq!(tracer.counter(group(9)), -64);
    tracer.trace_allocation(64, group(9));
    assert_eq!(tracer.counter(group(9)), 0);
}

#[test]
fn counters_wrap_around() {
    let mut tracer = LocalProducerTracer::new();
    tracer.trace_allocation(i64::MAX as usize, group(1));
    assert_eq!(tracer.counter(group(1)), i64::MAX);
    tracer.trace_allocation(1, group(1));
    assert_eq!(tracer.counter(group(1)), i64::MIN);
    tracer.trace_deallocation(1, group(1));
    assert_eq!(tracer.counter(group(1)), i64::MAX);

    let mut tracer = LocalProducerTracer::new();
    tracer.trace_deallocation(usize::MAX, group(2));
    assert_eq!(tracer.counter(group(2)), 0i64.wrapping_sub(usize::MAX as u64 as i64));
    tracer.trace_allocation(usize::MAX, group(2));
    assert_eq!(tracer.counter(group(2)), 0);

    let mut tracer = LocalProducerTracer::new();
    tracer.trace_deallocation((i64::MAX as usize) + 1, group(4));
    assert_eq!(tracer.counter(group(4)), i64::MIN);
    tracer.trace_deallocation((i64::MAX as usize) + 1, group(4));
    assert_eq!(tracer.counter(group(4)), 0);
}

#[test]
fn nothing_is_tracked_before_tracking_is_enabled() {
    let mut registry = GroupRegistry::new();
    let token = registry.register().unwrap();
    let mut allocator = get_grouped_tracing_allocator(17u8);
    assert!(!allocator.is_enabled());
    assert_eq!(*allocator.allocator(), 17u8);
    let mut ctx = ThreadContext::new();
    let scope = token.enter(&mut ctx);
    let plan = allocator.begin_allocation(&mut ctx, layout(4096, 8));
    assert_eq!(plan, AllocationPlan::Untraced);
    assert!(!ctx.is_suppressed());
    allocator.finish_allocation(&mut ctx, plan, true);
    assert_eq!(nonzero(allocator.tracer()), vec![]);
    assert_eq!(allocator.deallocate(&mut ctx, None, layout(4096, 8)), Ok(Release::Direct));
    assert_eq!(nonzero(allocator.tracer()), vec![]);

    let reporter = init_allocation_tracing(&mut allocator);
    assert!(allocator.is_enabled());
    assert!(!reporter.is_stopped());
    assert_eq!(*allocator.allocator(), 17u8);
    let plan = allocator.begin_allocation(&mut ctx, layout(4096, 8));
    assert!(matches!(plan, AllocationPlan::Traced { .. }));
    allocator.finish_allocation(&mut ctx, plan, true);
    assert_eq!(nonzero(allocator.tracer()), vec![(1, 4112)]);
    scope.exit(&mut ctx);
}

#[test]
fn allocations_made_while_tracking_is_suspended_leave_no_trace() {
    let mut registry = GroupRegistry::new();
    let token = registry.register().unwrap();
    let mut allocator = get_grouped_tracing_allocator(());
    let _reporter = init_allocation_tracing(&mut allocator);
    let mut ctx = ThreadContext::new();
    let scope = token.enter(&mut ctx);

    let guard = ctx.suppress();
    let plan = allocator.begin_allocation(&mut ctx, layout(512, 8));
    assert_eq!(plan, AllocationPlan::Untraced);
    allocator.finish_allocation(&mut ctx, plan, true);
    assert!(ctx.is_suppressed());
    assert_eq!(allocator.deallocate(&mut ctx, None, layout(512, 8)), Ok(Release::Direct));
    assert!(ctx.is_suppressed());
    assert_eq!(nonzero(allocator.tracer()), vec![]);
    ctx.resume(guard);

    let plan = allocator.begin_allocation(&mut ctx, layout(512, 8));
    assert!(matches!(plan, AllocationPlan::Traced { .. }));
    assert!(ctx.is_suppressed());
    let nested = allocator.begin_allocation(&mut ctx, layout(64, 8));
    assert_eq!(nested, AllocationPlan::Untraced);
    allocator.finish_allocation(&mut ctx, nested, true);
    assert!(ctx.is_suppressed());
    assert_eq!(nonzero(allocator.tracer()), vec![]);
    allocator.finish_allocation(&mut ctx, plan, true);
    assert!(!ctx.is_suppressed());
    assert_eq!(nonzero(allocator.tracer()), vec![(1, 528)]);
    scope.exit(&mut ctx);
}

#[test]
fn failed_allocation_is_not_recorded() {
    let mut allocator = get_grouped_tracing_allocator(());
    let _reporter = init_allocation_tracing(&mut allocator);
    let mut ctx = ThreadContext::new();
    let plan = allocator.begin_allocation(&mut ctx, layout(1 << 20, 8));
    assert!(matches!(plan, AllocationPlan::Traced { .. }));
    assert!(ctx.is_suppressed());
    allocator.finish_allocation(&mut ctx, plan, false);
    assert!(!ctx.is_suppressed());
    assert_eq!(nonzero(allocator.tracer()), vec![]);
}

#[test]
fn request_too_large_to_wrap_fails() {
    let mut allocator = get_grouped_tracing_allocator(());
    let _reporter = init_allocation_tracing(&mut allocator);
    let mut ctx = ThreadContext::new();
    let plan = allocator.begin_allocation(&mut ctx, layout(isize::MAX as usize, 1));
    assert_eq!(plan, AllocationPlan::OutOfMemory);
    assert!(!ctx.is_suppressed());
    allocator.finish_allocation(&mut ctx, plan, false);
    assert!(!ctx.is_suppressed());
    assert_eq!(nonzero(allocator.tracer()), vec![]);
}

#[test]
fn allocation_outside_any_scope_goes_to_the_default_group() {
    let mut allocator = get_grouped_tracing_allocator(());
    let _reporter = init_allocation_tracing(&mut allocator);
    let mut ctx = ThreadContext::new();
    let plan = allocator.begin_allocation(&mut ctx, layout(100, 4));
    assert_eq!(
        plan,
        AllocationPlan::Traced {
            wrapped: WrappedLayout { size: 120, align: 8, offset: 16 },
            header: AllocationHeader { group_id: AllocationGroupId::root(), wrapped_size: 120 },
        }
    );
    allocator.finish_allocation(&mut ctx, plan, true);
    assert_eq!(nonzero(allocator.tracer()), vec![(0, 120)]);
}

#[test]
fn release_is_attributed_to_the_group_of_the_header() {
    let mut registry = GroupRegistry::new();
    let a = registry.register().unwrap();
    let b = registry.register().unwrap();
    let mut allocator = get_grouped_tracing_allocator(());
    let _reporter = init_allocation_tracing(&mut allocator);
    let mut ctx = ThreadContext::new();

    let scope_a = a.enter(&mut ctx);
    let request = layout(1000, 8);
    let plan = allocator.begin_allocation(&mut ctx, request);
    let header = match plan {
        AllocationPlan::Traced { header, .. } => header,
        _ => panic!("the request was not tracked"),
    };
    allocator.finish_allocation(&mut ctx, plan, true);
    scope_a.exit(&mut ctx);

    let scope_b = b.enter(&mut ctx);
    assert_eq!(nonzero(allocator.tracer()), vec![(1, 1016)]);
    let guard = ctx.suppress();
    let release = allocator.deallocate(&mut ctx, Some(header.encode()), request);
    assert_eq!(
        release,
        Ok(Release::Wrapped { wrapped: WrappedLayout { size: 1016, align: 8, offset: 16 } })
    );
    assert!(ctx.is_suppressed());
    ctx.resume(guard);
    assert_eq!(ctx.current_group(), b.id());
    assert_eq!(nonzero(allocator.tracer()), vec![]);
    scope_b.exit(&mut ctx);
}

#[test]
fn corrupted_header_is_an_error_and_records_nothing() {
    let mut allocator = get_grouped_tracing_allocator(());
    let _reporter = init_allocation_tracing(&mut allocator);
    let mut ctx = ThreadContext::new();
    let request = layout(4096, 8);
    let plan = allocator.begin_allocation(&mut ctx, request);
    allocator.finish_allocation(&mut ctx, plan, true);
    assert_eq!(nonzero(allocator.tracer()), vec![(0, 4112)]);

    let no_group = RawHeader { group_id: 1024, wrapped_size: 4112 };
    assert_eq!(
        allocator.deallocate(&mut ctx, Some(no_group), request),
        Err(TracingError::CorruptedAllocationHeader)
    );
    let wrong_size = RawHeader { group_id: 0, wrapped_size: 4111 };
    assert_eq!(
        allocator.deallocate(&mut ctx, Some(wrong_size), request),
        Err(TracingError::CorruptedAllocationHeader)
    );
    assert!(!ctx.is_suppressed());
    assert_eq!(nonzero(allocator.tracer()), vec![(0, 4112)]);
}

#[test]
fn allocator_can_be_built_around_any_tracer() {
    let mut tracer = LocalProducerTracer::new();
    tracer.trace_allocation(10, group(5));
    let allocator = GroupedTraceableAllocator::new("system", tracer);
    assert!(!allocator.is_enabled());
    assert_eq!(*allocator.allocator(), "system");
    assert_eq!(allocator.tracer().counter(group(5)), 10);
}

#[test]
fn report_holds_the_groups_that_are_not_zero() {
    let mut counters = vec![0i64; CAPACITY];
    assert_eq!(report(&counters), vec![]);
    counters[0] = 120;
    counters[7] = -5;
    counters[1023] = 4096;
    assert_eq!(
        report(&counters),
        vec![
            GroupUsage { group_id: 0, current_memory_allocated_in_bytes: 120 },
            GroupUsage { group_id: 7, current_memory_allocated_in_bytes: -5 },
            GroupUsage { group_id: 1023, current_memory_allocated_in_bytes: 4096 },
        ]
    );
    assert_eq!(report(&[]), vec![]);
}

#[test]
fn group_that_returns_to_zero_is_no_longer_reported() {
    let mut tracer = LocalProducerTracer::new();
    tracer.trace_allocation(300, group(2));
    tracer.trace_allocation(40, group(6));
    assert_eq!(nonzero(&tracer), vec![(2, 300), (6, 40)]);
    tracer.trace_deallocation(300, group(2));
    assert_eq!(nonzero(&tracer), vec![(6, 40)]);
    tracer.trace_allocation(1, group(2));
    assert_eq!(nonzero(&tracer), vec![(2, 1), (6, 40)]);
}

#[test]
fn report_interval_is_five_seconds() {
    assert_eq!(REPORT_INTERVAL_MS, 5000);
}

#[test]
fn reporter_scans_emits_and_sleeps() {
    let mut reporter = Reporter::new();
    let mut ctx = ThreadContext::new();
    let mut tracer = LocalProducerTracer::new();
    tracer.trace_allocation(4096, group(1));

    reporter.start(&mut ctx);
    assert!(ctx.is_suppressed());
    let action = reporter.scan(&mut ctx, &tracer.snapshot());
    assert_eq!(
        action,
        ReporterAction::Emit(vec![GroupUsage {
            group_id: 1,
            current_memory_allocated_in_bytes: 4096
        }])
    );
    assert!(ctx.is_suppressed());
    assert_eq!(reporter.emitted(&mut ctx), ReporterAction::Sleep(5000));
    assert!(ctx.is_suppressed());

    tracer.trace_deallocation(4096, group(1));
    assert_eq!(reporter.scan(&mut ctx, &tracer.snapshot()), ReporterAction::Emit(vec![]));
    assert_eq!(reporter.emitted(&mut ctx), ReporterAction::Sleep(5000));
    assert!(ctx.is_suppressed());
}

#[test]
fn nothing_that_the_reporter_thread_allocates_is_tracked() {
    let mut registry = GroupRegistry::new();
    let token = registry.register().unwrap();
    let mut allocator = get_grouped_tracing_allocator(());
    let mut reporter = init_allocation_tracing(&mut allocator);
    let mut ctx = ThreadContext::new();
    tracer_warm_up(&mut allocator);
    let before = allocator.tracer().snapshot();

    reporter.start(&mut ctx);
    let scope = token.enter(&mut ctx);
    for _ in 0..3 {
        let plan = allocator.begin_allocation(&mut ctx, layout(256, 8));
        assert_eq!(plan, AllocationPlan::Untraced);
        allocator.finish_allocation(&mut ctx, plan, true);

        let counters = allocator.tracer().snapshot();
        assert!(matches!(reporter.scan(&mut ctx, &counters), ReporterAction::Emit(_)));
        let plan = allocator.begin_allocation(&mut ctx, layout(512, 16));
        assert_eq!(plan, AllocationPlan::Untraced);
        allocator.finish_allocation(&mut ctx, plan, true);

        assert_eq!(reporter.emitted(&mut ctx), ReporterAction::Sleep(REPORT_INTERVAL_MS));
        let plan = allocator.begin_allocation(&mut ctx, layout(64, 8));
        assert_eq!(plan, AllocationPlan::Untraced);
        allocator.finish_allocation(&mut ctx, plan, true);
        assert_eq!(allocator.deallocate(&mut ctx, None, layout(64, 8)), Ok(Release::Direct));
        assert_eq!(allocator.tracer().snapshot(), before);
    }
    scope.exit(&mut ctx);

    reporter.shutdown();
    assert_eq!(reporter.scan(&mut ctx, &before), ReporterAction::Halt);
    assert!(!ctx.is_suppressed());
    let plan = allocator.begin_allocation(&mut ctx, layout(64, 8));
    assert!(matches!(plan, AllocationPlan::Traced { .. }));
}

fn tracer_warm_up(allocator: &mut alloc_groups::Allocator<()>) {
    let mut ctx = ThreadContext::new();
    let plan = allocator.begin_allocation(&mut ctx, layout(1000, 8));
    allocator.finish_allocation(&mut ctx, plan, true);
    assert_eq!(nonzero(allocator.tracer()), vec![(0, 1016)]);
}

#[test]
fn reporter_halts_after_shutdown() {
    let mut reporter = Reporter::new();
    let mut ctx = ThreadContext::new();
    let counters = vec![5i64; 3];
    reporter.shutdown();
    assert!(reporter.is_stopped());
    assert_eq!(reporter.scan(&mut ctx, &counters), ReporterAction::Halt);
    assert!(!ctx.is_suppressed());
    assert_eq!(reporter.emitted(&mut ctx), ReporterAction::Halt);
    assert!(!ctx.is_suppressed());
}

#[test]
fn reporter_shut_down_during_emission_halts_and_resumes_tracking() {
    let mut reporter = Reporter::new();
    let mut ctx = ThreadContext::new();
    let counters = vec![0i64, 9];
    reporter.start(&mut ctx);
    assert_eq!(
        reporter.scan(&mut ctx, &counters),
        ReporterAction::Emit(vec![GroupUsage {
            group_id: 1,
            current_memory_allocated_in_bytes: 9
        }])
    );
    reporter.shutdown();
    assert!(ctx.is_suppressed());
    assert_eq!(reporter.emitted(&mut ctx), ReporterAction::Halt);
    assert!(!ctx.is_suppressed());
    assert_eq!(reporter.scan(&mut ctx, &counters), ReporterAction::Halt);
    assert!(!ctx.is_suppressed());
}

#[test]
fn reporter_that_was_not_started_suspends_tracking_at_its_first_step() {
    let mut reporter = Reporter::new();
    let mut ctx = ThreadContext::new();
    assert_eq!(reporter.emitted(&mut ctx), ReporterAction::Sleep(5000));
    assert!(ctx.is_suppressed());

    let mut reporter = Reporter::new();
    let mut ctx = ThreadContext::new();
    assert_eq!(reporter.scan(&mut ctx, &[0i64, 0]), ReporterAction::Emit(vec![]));
    assert!(ctx.is_suppressed());
}

#[test]
fn halt_puts_back_what_was_there_before_the_reporter_started() {
    let mut reporter = Reporter::new();
    let mut ctx = ThreadContext::new();
    let guard = ctx.suppress();
    reporter.start(&mut ctx);
    reporter.start(&mut ctx);
    assert_eq!(reporter.emitted(&mut ctx), ReporterAction::Sleep(5000));
    reporter.shutdown();
    assert_eq!(reporter.emitted(&mut ctx), ReporterAction::Halt);
    assert!(ctx.is_suppressed());
    ctx.resume(guard);
    assert!(!ctx.is_suppressed());
}

#[test]
fn each_tracked_event_is_counted_once() {
    let mut registry = GroupRegistry::new();
    let a = registry.register().unwrap();
    let b = registry.register().unwrap();
    let mut allocator = get_grouped_tracing_allocator(());
    let mut ctx = ThreadContext::new();

    let early = allocator.begin_allocation(&mut ctx, layout(64, 8));
    allocator.finish_allocation(&mut ctx, early, true);
    assert_eq!(nonzero(allocator.tracer()), vec![]);

    let _reporter = init_allocation_tracing(&mut allocator);
    let scope_a = a.enter(&mut ctx);
    let first = allocator.begin_allocation(&mut ctx, layout(100, 8));
    allocator.finish_allocation(&mut ctx, first, true);
    let scope_b = b.enter(&mut ctx);
    let second = allocator.begin_allocation(&mut ctx, layout(1, 64));
    allocator.finish_allocation(&mut ctx, second, true);
    let failed = allocator.begin_allocation(&mut ctx, layout(7, 1));
    allocator.finish_allocation(&mut ctx, failed, false);
    scope_b.exit(&mut ctx);
    assert_eq!(nonzero(allocator.tracer()), vec![(1, 120), (2, 128)]);

    let third = allocator.begin_allocation(&mut ctx, layout(8, 8));
    allocator.finish_allocation(&mut ctx, third, true);
    assert_eq!(nonzero(allocator.tracer()), vec![(1, 144), (2, 128)]);

    let header = match first {
        AllocationPlan::Traced { header, .. } => header,
        _ => panic!("the request was not tracked"),
    };
    assert!(allocator.deallocate(&mut ctx, Some(header.encode()), layout(100, 8)).is_ok());
    assert!(allocator.deallocate(&mut ctx, None, layout(64, 8)).is_ok());
    scope_a.exit(&mut ctx);
    assert_eq!(nonzero(allocator.tracer()), vec![(1, 24), (2, 128)]);

    let last = allocator.begin_allocation(&mut ctx, layout(8, 8));
    allocator.finish_allocation(&mut ctx, last, true);
    assert_eq!(nonzero(allocator.tracer()), vec![(0, 24), (1, 24), (2, 128)]);
}
